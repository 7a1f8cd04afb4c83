use vstd::prelude::*;

verus! {

/// `String::push` appends one character to the end of the string.
pub assume_specification[ String::push ](s: &mut String, ch: char)
    ensures
        final(s)@ == old(s)@.push(ch),
;

/// The least position at or after `from` that holds a decimal point, or the
/// length of `s` when there is none.
pub open spec fn first_point(s: Seq<char>, from: int) -> int
    decreases s.len() - from,
{
    if from >= s.len() {
        s.len() as int
    } else if s[from] == '.' {
        from
    } else {
        first_point(s, from + 1)
    }
}

/// The length of the integer part of `s`: everything before the first decimal
/// point, a sign included.
pub open spec fn integer_len(s: Seq<char>) -> int {
    first_point(s, 0)
}

/// The number of characters after the first decimal point; 0 without one.
pub open spec fn fraction_len(s: Seq<char>) -> int {
    if integer_len(s) == s.len() {
        0
    } else {
        s.len() - integer_len(s) - 1
    }
}

/// `s` holds a space somewhere.
pub open spec fn has_space(s: Seq<char>) -> bool {
    exists|i: int| 0 <= i < s.len() && s[i] == ' '
}

/// The characters that stripping keeps.
pub open spec fn not_space() -> spec_fn(char) -> bool {
    |c: char| c != ' '
}

/// `s` without its spaces.
pub open spec fn strip_spaces(s: Seq<char>) -> Seq<char> {
    s.filter(not_space())
}

/// A decimal point for a comma, any other character as it is.
pub open spec fn point_for_comma(c: char) -> char {
    if c == ',' {
        '.'
    } else {
        c
    }
}

/// `s` with every comma turned into a decimal point and every space removed.
pub open spec fn normalized(s: Seq<char>) -> Seq<char> {
    strip_spaces(s).map_values(|c: char| point_for_comma(c))
}

/// `first_point(s, from)` is the first decimal point at or after `from`.
pub proof fn lemma_first_point(s: Seq<char>, from: int)
    requires
        0 <= from <= s.len(),
    ensures
        from <= first_point(s, from) <= s.len(),
        forall|i: int| from <= i < first_point(s, from) ==> s[i] != '.',
        first_point(s, from) < s.len() ==> s[first_point(s, from)] == '.',
    decreases s.len() - from,
{
    if from < s.len() && s[from] != '.' {
        lemma_first_point(s, from + 1);
    }
}

/// A position with no decimal point before it and one on it (or the end of
/// the text) is the length of the integer part.
pub proof fn lemma_integer_len_is(s: Seq<char>, n: int)
    requires
        0 <= n <= s.len(),
        forall|i: int| 0 <= i < n ==> s[i] != '.',
        n < s.len() ==> s[n] == '.',
    ensures
        integer_len(s) == n,
{
    lemma_first_point(s, 0);
}

/// Stripping goes character by character.
pub proof fn lemma_strip_spaces_push(s: Seq<char>, c: char)
    ensures
        strip_spaces(s.push(c)) == if c == ' ' {
            strip_spaces(s)
        } else {
            strip_spaces(s).push(c)
        },
{
    reveal(Seq::filter);
    assert(s.push(c).drop_last() =~= s);
}

/// Stripping a text in two pieces strips each piece.
pub proof fn lemma_strip_spaces_add(a: Seq<char>, b: Seq<char>)
    ensures
        strip_spaces(a + b) == strip_spaces(a) + strip_spaces(b),
{
    Seq::filter_distributes_over_add(a, b, not_space());
}

/// A text without spaces is its own stripped form.
pub proof fn lemma_strip_spaces_without(s: Seq<char>)
    requires
        !has_space(s),
    ensures
        strip_spaces(s) == s,
    decreases s.len(),
{
    reveal(Seq::filter);
    if s.len() > 0 {
        let head = s.drop_last();
        assert(!has_space(head)) by {
            if has_space(head) {
                let i = choose|i: int| 0 <= i < head.len() && head[i] == ' ';
                assert(s[i] == ' ');
            }
        }
        lemma_strip_spaces_without(head);
        assert(s[s.len() - 1] != ' ');
        assert(head.push(s.last()) =~= s);
    }
}

/// The characters of `s`, in order.
pub fn chars_of(s: &str) -> (v: Vec<char>)
    ensures
        v@ == s@,
{
    let mut v: Vec<char> = Vec::new();
    for c in it: s.chars()
        invariant
            v@ == it.seq().take(it.index() as int),
            it.seq() == s@,
    {
        v.push(c);
    }
    v
}

/// Brings a typed number into the form the decimal reader takes: every comma
/// becomes a decimal point, every space goes.
pub fn normalize(s: &str) -> (out: String)
    ensures
        out@ == normalized(s@),
{
    let chars = chars_of(s);
    let mut out = String::new();
    let mut i: usize = 0;
    assert(s@.take(0) =~= Seq::<char>::empty());
    proof {
        reveal(Seq::filter);
    }
    assert(normalized(Seq::<char>::empty()) =~= Seq::<char>::empty());
    while i < chars.len()
        invariant
            chars@ == s@,
            i <= chars.len(),
            out@ == normalized(s@.take(i as int)),
        decreases chars.len() - i,
    {
        let c = chars[i];
        proof {
            lemma_strip_spaces_push(s@.take(i as int), c);
            assert(s@.take(i + 1) =~= s@.take(i as int).push(c));
        }
        if c == ',' {
            out.push('.');
        } else if c != ' ' {
            out.push(c);
        }
        i += 1;
        assert(out@ =~= normalized(s@.take(i as int)));
    }
    assert(s@.take(chars.len() as int) =~= s@);
    out
}

} // verus!
