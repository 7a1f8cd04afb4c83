use vstd::prelude::*;
use crate::error::ErrorKind;
use crate::text::{chars_of, integer_len, lemma_first_point};

verus! {

/// The number of characters directly before position `i` that are not spaces:
/// the length of the run since the last space, or since the start.
pub open spec fn run_before(s: Seq<char>, i: int) -> nat
    decreases i,
{
    if i <= 0 || i > s.len() || s[i - 1] == ' ' {
        0
    } else {
        1 + run_before(s, i - 1)
    }
}

/// A space stands somewhere before position `i`.
pub open spec fn space_before(s: Seq<char>, i: int) -> bool {
    exists|j: int| 0 <= j < i && s[j] == ' '
}

/// What is wrong with the character at position `i` of `s`, if anything.
///
/// A space is at fault when it opens the text, follows the decimal point,
/// follows another space, is the first space and has more than three
/// characters before it, or is a later space and closes a group that is not
/// three characters long. The first decimal point is at fault when spaces
/// came before it and its group is not three characters long.
pub open spec fn fault_at(s: Seq<char>, i: int) -> Option<ErrorKind> {
    if s[i] == ' ' {
        if i == 0 {
            Some(ErrorKind::LeadingSpace)
        } else if i > integer_len(s) {
            Some(ErrorKind::SpaceAfterDecimal)
        } else if s[i - 1] == ' ' {
            Some(ErrorKind::DoubleSpace)
        } else if !space_before(s, i) {
            if run_before(s, i) > 3 {
                Some(ErrorKind::TooManyLeadingDigits)
            } else {
                None
            }
        } else if run_before(s, i) != 3 {
            Some(ErrorKind::UnevenGrouping)
        } else {
            None
        }
    } else if i == integer_len(s) && space_before(s, i) && run_before(s, i) != 3 {
        Some(ErrorKind::BadGroupBeforeDecimal)
    } else {
        None
    }
}

/// The fault of the first position at or after `from` that has one.
pub open spec fn first_fault(s: Seq<char>, from: int) -> Option<ErrorKind>
    decreases s.len() - from,
{
    if from >= s.len() {
        None
    } else if fault_at(s, from) is Some {
        fault_at(s, from)
    } else {
        first_fault(s, from + 1)
    }
}

/// The verdict on the spacing of `s`: the leftmost fault, or none.
pub open spec fn spacing_verdict(s: Seq<char>) -> Result<(), ErrorKind> {
    match first_fault(s, 0) {
        Some(e) => Err(e),
        None => Ok(()),
    }
}

/// `first_fault` finds the leftmost fault: no position between `from` and
/// the one it reports has a fault, and it reports none only where no
/// position from `from` on has one.
pub proof fn lemma_first_fault_is_leftmost(s: Seq<char>, from: int)
    requires
        0 <= from,
    ensures
        match first_fault(s, from) {
            Some(e) => exists|i: int|
                {
                    &&& from <= i < s.len()
                    &&& #[trigger] fault_at(s, i) == Some(e)
                    &&& forall|j: int| from <= j < i ==> fault_at(s, j) is None
                },
            None => forall|i: int| from <= i < s.len() ==> fault_at(s, i) is None,
        },
    decreases s.len() - from,
{
    if from < s.len() {
        if fault_at(s, from) is Some {
            assert(fault_at(s, from) == Some(first_fault(s, from)->0));
        } else {
            lemma_first_fault_is_leftmost(s, from + 1);
            if first_fault(s, from) is Some {
                let e = first_fault(s, from)->0;
                let i = choose|i: int|
                    {
                        &&& from + 1 <= i < s.len()
                        &&& #[trigger] fault_at(s, i) == Some(e)
                        &&& forall|j: int| from + 1 <= j < i ==> fault_at(s, j) is None
                    };
                assert(forall|j: int| from <= j < i ==> fault_at(s, j) is None);
            }
        }
    }
}

/// Checks that `s` is grouped by single spaces into threes, as typed: before
/// any comma is read as a decimal point and before any space is removed.
pub fn check_spaces(s: &str) -> (r: Result<(), ErrorKind>)
    ensures
        r == spacing_verdict(s@),
{
    let chars = chars_of(s);
    let n = chars.len();
    if n > 0 && chars[0] == ' ' {
        return Err(ErrorKind::LeadingSpace);
    }
    let mut i: usize = 0;
    let mut offset: usize = 0;
    let mut is_first_offset = true;
    let mut is_prev_space = false;
    proof {
        lemma_first_point(s@, 0);
    }
    while i < n && chars[i] != '.'
        invariant
            chars@ == s@,
            n == s@.len(),
            i <= n,
            i <= integer_len(s@) <= n,
            n > 0 ==> s@[0] != ' ',
            forall|j: int| 0 <= j < integer_len(s@) ==> s@[j] != '.',
            integer_len(s@) < n ==> s@[integer_len(s@)] == '.',
            first_fault(s@, 0) == first_fault(s@, i as int),
            offset == run_before(s@, i as int),
            offset <= i,
            is_first_offset == !space_before(s@, i as int),
            is_prev_space == (i > 0 && s@[i - 1] == ' '),
        decreases n - i,
    {
        if chars[i] == ' ' {
            if is_prev_space {
                return Err(ErrorKind::DoubleSpace);
            } else if is_first_offset {
                if offset <= 3 {
                    is_first_offset = false;
                } else {
                    return Err(ErrorKind::TooManyLeadingDigits);
                }
            } else if offset != 3 {
                return Err(ErrorKind::UnevenGrouping);
            }
            offset = 0;
            is_prev_space = true;
        } else {
            offset += 1;
            is_prev_space = false;
        }
        i += 1;
    }
    if i < n {
        if offset != 3 && !is_first_offset {
            return Err(ErrorKind::BadGroupBeforeDecimal);
        }
        i += 1;
        while i < n
            invariant
                chars@ == s@,
                n == s@.len(),
                0 <= integer_len(s@) < i <= n,
                first_fault(s@, 0) == first_fault(s@, i as int),
            decreases n - i,
        {
            if chars[i] == ' ' {
                return Err(ErrorKind::SpaceAfterDecimal);
            }
            i += 1;
        }
    }
    Ok(())
}

} // verus!
