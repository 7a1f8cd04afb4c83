use vstd::prelude::*;
use crate::text::{chars_of, integer_len, lemma_first_point};

verus! {

/// `t` cut into groups of three characters from its right edge, the groups
/// joined by single spaces. The leftmost group holds one to three characters.
pub open spec fn spaced(t: Seq<char>) -> Seq<char>
    decreases t.len(),
{
    if t.len() <= 3 {
        t
    } else {
        spaced(t.take(t.len() - 3)) + seq![' '] + t.skip(t.len() - 3)
    }
}

/// The display form of `s`: its integer part, sign included, in groups of
/// three; the decimal point and what follows it unchanged.
pub open spec fn grouped(s: Seq<char>) -> Seq<char> {
    spaced(s.take(integer_len(s))) + s.skip(integer_len(s))
}

/// The first `j` characters of `t` as they stand in `spaced(t)`: a space goes
/// before each character but the first whose distance to the right edge of
/// `t` is a multiple of three.
spec fn spaced_upto(t: Seq<char>, j: int) -> Seq<char>
    decreases j,
{
    if j <= 0 {
        Seq::empty()
    } else if j - 1 > 0 && (t.len() - (j - 1)) % 3 == 0 {
        spaced_upto(t, j - 1).push(' ').push(t[j - 1])
    } else {
        spaced_upto(t, j - 1).push(t[j - 1])
    }
}

proof fn lemma_spaced_upto_short(t: Seq<char>, j: int)
    requires
        t.len() <= 3,
        0 <= j <= t.len(),
    ensures
        spaced_upto(t, j) == t.take(j),
    decreases j,
{
    if j > 0 {
        lemma_spaced_upto_short(t, j - 1);
        assert(t.take(j) =~= t.take(j - 1).push(t[j - 1]));
    } else {
        assert(t.take(j) =~= Seq::<char>::empty());
    }
}

proof fn lemma_spaced_upto_ignores_last_group(t: Seq<char>, j: int)
    requires
        t.len() > 3,
        0 <= j <= t.len() - 3,
    ensures
        spaced_upto(t, j) == spaced_upto(t.take(t.len() - 3), j),
    decreases j,
{
    if j > 0 {
        lemma_spaced_upto_ignores_last_group(t, j - 1);
    }
}

proof fn lemma_spaced_upto_all(t: Seq<char>)
    ensures
        spaced_upto(t, t.len() as int) == spaced(t),
    decreases t.len(),
{
    let n = t.len() as int;
    if n <= 3 {
        lemma_spaced_upto_short(t, n);
        assert(t.take(n) =~= t);
    } else {
        let head = t.take(n - 3);
        lemma_spaced_upto_all(head);
        lemma_spaced_upto_ignores_last_group(t, n - 3);
        assert(spaced_upto(t, n - 2) == spaced_upto(t, n - 3).push(' ').push(t[n - 3]));
        assert(spaced_upto(t, n - 1) == spaced_upto(t, n - 2).push(t[n - 2]));
        assert(spaced_upto(t, n) == spaced_upto(t, n - 1).push(t[n - 1]));
        assert(spaced_upto(t, n) =~= spaced(head) + seq![' '] + t.skip(n - 3));
    }
}

/// Renders a plain decimal text for display: the integer part in groups of
/// three, counted from the decimal point, with single spaces between them.
pub fn format_with_spaces(s: &str) -> (out: String)
    ensures
        out@ == grouped(s@),
{
    let chars = chars_of(s);
    let n = chars.len();
    let mut trunc_len: usize = 0;
    proof {
        lemma_first_point(s@, 0);
    }
    while trunc_len < n && chars[trunc_len] != '.'
        invariant
            chars@ == s@,
            n == s@.len(),
            trunc_len <= integer_len(s@) <= n,
            forall|j: int| 0 <= j < integer_len(s@) ==> s@[j] != '.',
            integer_len(s@) < n ==> s@[integer_len(s@)] == '.',
        decreases n - trunc_len,
    {
        trunc_len += 1;
    }
    let ghost whole = s@.take(trunc_len as int);
    let mut offset = trunc_len % 3;
    let mut out = String::new();
    let mut i: usize = 0;
    while i < trunc_len
        invariant
            chars@ == s@,
            n == s@.len(),
            whole == s@.take(trunc_len as int),
            i <= trunc_len <= n,
            offset == (trunc_len - i) % 3,
            out@ == spaced_upto(whole, i as int),
        decreases trunc_len - i,
    {
        if offset == 0 {
            if i > 0 {
                out.push(' ');
            }
            offset = 3;
        }
        offset -= 1;
        out.push(chars[i]);
        i += 1;
    }
    proof {
        lemma_spaced_upto_all(whole);
    }
    while i < n
        invariant
            chars@ == s@,
            n == s@.len(),
            trunc_len <= i <= n,
            out@ == spaced(whole) + s@.subrange(trunc_len as int, i as int),
        decreases n - i,
    {
        out.push(chars[i]);
        i += 1;
        assert(s@.subrange(trunc_len as int, i as int) =~= s@.subrange(
            trunc_len as int,
            i - 1,
        ).push(s@[i - 1]));
    }
    assert(s@.subrange(trunc_len as int, n as int) =~= s@.skip(trunc_len as int));
    out
}

} // verus!
