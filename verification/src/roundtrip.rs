use vstd::prelude::*;
use crate::error::ErrorKind;
use crate::grouping::{grouped, spaced};
use crate::spacing::{fault_at, first_fault, run_before, space_before, spacing_verdict};
use crate::text::{
    has_space, integer_len, lemma_first_point, lemma_integer_len_is, lemma_strip_spaces_add,
    lemma_strip_spaces_without, normalized, not_space, point_for_comma, strip_spaces,
};

verus! {

/// `t` is an integer part in display form: the spaces of `t` are exactly the
/// characters whose distance to the right edge is a multiple of four, and
/// the first character is none of them.
pub open spec fn grouped_whole(t: Seq<char>) -> bool {
    &&& t.len() == 0 || t.len() % 4 != 0
    &&& forall|i: int| 0 <= i < t.len() ==> ((#[trigger] t[i] == ' ') <==> (t.len() - i) % 4 == 0)
}

/// `s` is a text in display form: its integer part is cut by single spaces
/// into groups of three, of which only the leftmost may be shorter, and no
/// space stands at or after the decimal point.
pub open spec fn well_grouped(s: Seq<char>) -> bool {
    &&& grouped_whole(s.take(integer_len(s)))
    &&& !has_space(s.skip(integer_len(s)))
}

proof fn lemma_strip_single_space()
    ensures
        strip_spaces(seq![' ']) == Seq::<char>::empty(),
{
    reveal_with_fuel(Seq::filter, 2);
    assert(seq![' '].drop_last() =~= Seq::<char>::empty());
}

proof fn lemma_spaced_of_stripped(t: Seq<char>)
    requires
        grouped_whole(t),
    ensures
        spaced(strip_spaces(t)) == t,
    decreases t.len(),
{
    let n = t.len() as int;
    if n <= 3 {
        assert(!has_space(t)) by {
            if has_space(t) {
                let i = choose|i: int| 0 <= i < t.len() && t[i] == ' ';
                assert((n - i) % 4 == 0);
            }
        }
        lemma_strip_spaces_without(t);
    } else {
        let head = t.take(n - 4);
        let group = t.skip(n - 3);
        assert(t[n - 4] == ' ');
        assert(t =~= head + seq![' '] + group);
        assert(grouped_whole(head)) by {
            assert forall|i: int| 0 <= i < head.len() implies ((#[trigger] head[i] == ' ') <==> (
            head.len() - i) % 4 == 0) by {
                assert(head[i] == t[i]);
            }
        }
        assert(!has_space(group)) by {
            if has_space(group) {
                let i = choose|i: int| 0 <= i < group.len() && group[i] == ' ';
                assert(t[n - 3 + i] == ' ');
            }
        }
        lemma_spaced_of_stripped(head);
        lemma_strip_spaces_without(group);
        lemma_strip_single_space();
        lemma_strip_spaces_add(head + seq![' '], group);
        lemma_strip_spaces_add(head, seq![' ']);
        let bare = strip_spaces(t);
        assert(bare =~= strip_spaces(head) + group);
        assert(strip_spaces(head).len() > 0) by {
            if strip_spaces(head).len() == 0 {
                assert(spaced(strip_spaces(head)) =~= Seq::<char>::empty());
            }
        }
        assert(bare.take(bare.len() - 3) =~= strip_spaces(head));
        assert(bare.skip(bare.len() - 3) =~= group);
    }
}

proof fn lemma_stripped_keeps_no_point(t: Seq<char>)
    requires
        forall|i: int| 0 <= i < t.len() ==> t[i] != '.',
    ensures
        forall|i: int| 0 <= i < strip_spaces(t).len() ==> strip_spaces(t)[i] != '.',
{
    let bare = strip_spaces(t);
    assert forall|i: int| 0 <= i < bare.len() implies bare[i] != '.' by {
        if bare[i] == '.' {
            assert(bare.contains('.'));
            t.lemma_filter_contains_rev(not_space(), '.');
            let j = choose|j: int| 0 <= j < t.len() && t[j] == '.';
            assert(false);
        }
    }
}

/// Grouping undoes stripping: a text in display form comes back when its
/// spaces are taken out and it is formatted again.
pub proof fn lemma_grouping_round_trip(s: Seq<char>)
    requires
        well_grouped(s),
    ensures
        grouped(strip_spaces(s)) == s,
{
    let n = integer_len(s);
    lemma_first_point(s, 0);
    let whole = s.take(n);
    let rest = s.skip(n);
    assert(s =~= whole + rest);
    lemma_strip_spaces_add(whole, rest);
    lemma_strip_spaces_without(rest);
    lemma_spaced_of_stripped(whole);
    lemma_stripped_keeps_no_point(whole);
    let bare = strip_spaces(s);
    let k = strip_spaces(whole).len() as int;
    assert(bare =~= strip_spaces(whole) + rest);
    assert(k < bare.len() ==> bare[k] == '.') by {
        if k < bare.len() {
            assert(bare[k] == rest[0]);
        }
    }
    lemma_integer_len_is(bare, k);
    assert(bare.take(k) =~= strip_spaces(whole));
    assert(bare.skip(k) =~= rest);
}

proof fn lemma_spaced_shape(t: Seq<char>)
    requires
        !has_space(t),
    ensures
        grouped_whole(spaced(t)),
        strip_spaces(spaced(t)) == t,
        forall|i: int| 0 <= i < spaced(t).len() ==> spaced(t)[i] == ' ' || t.contains(spaced(t)[i]),
    decreases t.len(),
{
    let n = t.len() as int;
    if n <= 3 {
        lemma_strip_spaces_without(t);
        assert forall|i: int| 0 <= i < t.len() implies ((#[trigger] t[i] == ' ') <==> (t.len() - i)
            % 4 == 0) by {
            if t[i] == ' ' {
                assert(has_space(t));
            }
        }
    } else {
        let head = t.take(n - 3);
        let group = t.skip(n - 3);
        assert(t =~= head + group);
        assert(!has_space(head)) by {
            if has_space(head) {
                let i = choose|i: int| 0 <= i < head.len() && head[i] == ' ';
                assert(t[i] == ' ');
            }
        }
        assert(!has_space(group)) by {
            if has_space(group) {
                let i = choose|i: int| 0 <= i < group.len() && group[i] == ' ';
                assert(t[n - 3 + i] == ' ');
            }
        }
        lemma_spaced_shape(head);
        let u = spaced(head);
        let out = spaced(t);
        assert(out == u + seq![' '] + group);
        assert(u.len() > 0) by {
            if u.len() == 0 {
                reveal(Seq::filter);
                assert(strip_spaces(u) =~= Seq::<char>::empty());
            }
        }
        lemma_strip_spaces_without(group);
        lemma_strip_single_space();
        lemma_strip_spaces_add(u + seq![' '], group);
        lemma_strip_spaces_add(u, seq![' ']);
        assert(strip_spaces(out) =~= t);
        assert forall|i: int| 0 <= i < out.len() implies ((#[trigger] out[i] == ' ') <==> (
        out.len() - i) % 4 == 0) by {
            if i < u.len() {
                assert(out[i] == u[i]);
            } else if i == u.len() {
            } else {
                assert(out[i] == group[i - u.len() - 1]);
                if out[i] == ' ' {
                    assert(has_space(group));
                }
            }
        }
        assert forall|i: int| 0 <= i < out.len() implies out[i] == ' ' || t.contains(out[i]) by {
            if i < u.len() {
                assert(out[i] == u[i]);
                if u[i] != ' ' {
                    let j = choose|j: int| 0 <= j < head.len() && head[j] == u[i];
                    assert(t[j] == u[i]);
                }
            } else if i == u.len() {
            } else {
                assert(out[i] == t[n - 3 + (i - u.len() - 1)]);
            }
        }
    }
}

/// Every character of a display form is a space or a character of the text
/// that was formatted.
pub proof fn lemma_grouped_holds_what_was_there(c: Seq<char>, i: int)
    requires
        !has_space(c),
        0 <= i < grouped(c).len(),
    ensures
        grouped(c)[i] == ' ' || c.contains(grouped(c)[i]),
{
    let n = integer_len(c);
    lemma_first_point(c, 0);
    let whole = c.take(n);
    let rest = c.skip(n);
    assert(!has_space(whole)) by {
        if has_space(whole) {
            let k = choose|k: int| 0 <= k < whole.len() && whole[k] == ' ';
            assert(c[k] == ' ');
        }
    }
    lemma_spaced_shape(whole);
    let u = spaced(whole);
    if i < u.len() {
        assert(grouped(c)[i] == u[i]);
        if u[i] != ' ' {
            let j = choose|j: int| 0 <= j < whole.len() && whole[j] == u[i];
            assert(c[j] == u[i]);
        }
    } else {
        assert(grouped(c)[i] == c[n + (i - u.len())]);
    }
}

/// Formatting a text without spaces gives a text in display form, and
/// stripping that gives the first text back.
pub proof fn lemma_grouped_is_well_grouped(c: Seq<char>)
    requires
        !has_space(c),
    ensures
        well_grouped(grouped(c)),
        strip_spaces(grouped(c)) == c,
{
    let n = integer_len(c);
    lemma_first_point(c, 0);
    let whole = c.take(n);
    let rest = c.skip(n);
    assert(c =~= whole + rest);
    assert(!has_space(whole)) by {
        if has_space(whole) {
            let i = choose|i: int| 0 <= i < whole.len() && whole[i] == ' ';
            assert(c[i] == ' ');
        }
    }
    assert(!has_space(rest)) by {
        if has_space(rest) {
            let i = choose|i: int| 0 <= i < rest.len() && rest[i] == ' ';
            assert(c[n + i] == ' ');
        }
    }
    lemma_spaced_shape(whole);
    let u = spaced(whole);
    let out = grouped(c);
    assert(out == u + rest);
    assert forall|i: int| 0 <= i < u.len() implies out[i] != '.' by {
        assert(out[i] == u[i]);
        if u[i] != ' ' {
            let j = choose|j: int| 0 <= j < whole.len() && whole[j] == u[i];
            assert(c[j] == u[i]);
        }
    }
    assert(u.len() < out.len() ==> out[u.len() as int] == '.') by {
        if u.len() < out.len() {
            assert(out[u.len() as int] == rest[0]);
        }
    }
    lemma_integer_len_is(out, u.len() as int);
    assert(out.take(u.len() as int) =~= u);
    assert(out.skip(u.len() as int) =~= rest);
    lemma_strip_spaces_add(u, rest);
    lemma_strip_spaces_without(rest);
}

proof fn lemma_run_before_bound(s: Seq<char>, i: int)
    ensures
        run_before(s, i) <= if i < 0 {
            0
        } else {
            i
        },
    decreases i,
{
    if !(i <= 0 || i > s.len() || s[i - 1] == ' ') {
        lemma_run_before_bound(s, i - 1);
    }
}

proof fn lemma_no_fault(s: Seq<char>, i: int)
    requires
        well_grouped(s),
        0 <= i < s.len(),
    ensures
        fault_at(s, i) is None,
{
    let n = integer_len(s);
    lemma_first_point(s, 0);
    let whole = s.take(n);
    let rest = s.skip(n);
    assert(forall|j: int| 0 <= j < n ==> whole[j] == s[j]);
    if i > n {
        assert(rest[i - n] == s[i]);
        if s[i] == ' ' {
            assert(has_space(rest));
        }
    } else if i == n {
        if space_before(s, i) {
            let j = choose|j: int| 0 <= j < i && s[j] == ' ';
            assert(whole[j] == ' ');
            assert(whole[n - 1] != ' ');
            assert(whole[n - 2] != ' ');
            assert(whole[n - 3] != ' ');
            assert(whole[n - 4] == ' ');
            reveal_with_fuel(run_before, 5);
            assert(run_before(s, i) == 3);
        }
    } else if s[i] == ' ' {
        assert(whole[i] == ' ');
        assert(whole[0] != ' ');
        assert(whole[i - 1] != ' ');
        if i >= 4 {
            assert(whole[i - 2] != ' ');
            assert(whole[i - 3] != ' ');
            assert(whole[i - 4] == ' ');
            assert(space_before(s, i));
            reveal_with_fuel(run_before, 5);
            assert(run_before(s, i) == 3);
        } else {
            lemma_run_before_bound(s, i);
            if space_before(s, i) {
                let j = choose|j: int| 0 <= j < i && s[j] == ' ';
                assert(whole[j] == ' ');
                assert(false);
            }
        }
    }
}

proof fn lemma_faultless_from(s: Seq<char>, from: int)
    requires
        0 <= from,
        forall|i: int| from <= i < s.len() ==> fault_at(s, i) is None,
    ensures
        first_fault(s, from) is None,
    decreases s.len() - from,
{
    if from < s.len() {
        lemma_faultless_from(s, from + 1);
    }
}

/// A text in display form passes `check_spaces`.
pub proof fn lemma_well_grouped_passes(s: Seq<char>)
    requires
        well_grouped(s),
    ensures
        spacing_verdict(s) == Ok::<(), ErrorKind>(()),
{
    assert forall|i: int| 0 <= i < s.len() implies fault_at(s, i) is None by {
        lemma_no_fault(s, i);
    }
    lemma_faultless_from(s, 0);
}

/// `s` holds a comma somewhere.
pub open spec fn has_comma(s: Seq<char>) -> bool {
    exists|i: int| 0 <= i < s.len() && s[i] == ','
}

/// Normalizing a text without commas only strips its spaces.
pub proof fn lemma_normalized_without_commas(s: Seq<char>)
    requires
        !has_comma(s),
    ensures
        normalized(s) == strip_spaces(s),
{
    let bare = strip_spaces(s);
    assert forall|i: int| 0 <= i < bare.len() implies point_for_comma(bare[i]) == bare[i] by {
        if bare[i] == ',' {
            assert(bare.contains(','));
            s.lemma_filter_contains_rev(not_space(), ',');
            let j = choose|j: int| 0 <= j < s.len() && s[j] == ',';
            assert(has_comma(s));
        }
    }
    assert(normalized(s) =~= bare);
}

/// Display is stable: the display form of a text without spaces passes
/// `check_spaces`, and stripping and formatting it once more changes nothing.
/// Where the text holds no comma either, normalizing its display form gives
/// the text back.
pub proof fn lemma_display_is_stable(c: Seq<char>)
    requires
        !has_space(c),
    ensures
        spacing_verdict(grouped(c)) == Ok::<(), ErrorKind>(()),
        grouped(strip_spaces(grouped(c))) == grouped(c),
        !has_comma(c) ==> normalized(grouped(c)) == c,
        !has_comma(c) ==> grouped(normalized(grouped(c))) == grouped(c),
{
    lemma_grouped_is_well_grouped(c);
    lemma_well_grouped_passes(grouped(c));
    if !has_comma(c) {
        let out = grouped(c);
        assert(!has_comma(out)) by {
            if has_comma(out) {
                let i = choose|i: int| 0 <= i < out.len() && out[i] == ',';
                lemma_grouped_holds_what_was_there(c, i);
                let j = choose|j: int| 0 <= j < c.len() && c[j] == out[i];
                assert(c[j] == ',');
            }
        }
        lemma_normalized_without_commas(out);
    }
}

} // verus!
