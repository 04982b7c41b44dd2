//! Flags given after a command, such as the `pnl` printing flags.
use vstd::prelude::*;
use crate::cmd::selection::char_at;
use crate::error::{EdError, EdResult};
use crate::text::chars_of;

verus! {

/// Whether character `i` of `input` is acceptable as a flag: a newline
/// (ignored), or an allowed flag not given before.
pub open spec fn flag_ok_at(input: Seq<char>, allowed: Seq<char>, i: int) -> bool {
    input[i] == '\n' || (allowed.contains(input[i]) && !input.take(i).contains(input[i]))
}

/// Whether every character of `input` is acceptable as a flag.
pub open spec fn flags_ok(input: Seq<char>, allowed: Seq<char>) -> bool {
    forall|i: int| 0 <= i < input.len() ==> flag_ok_at(input, allowed, i)
}

/// Whether `i` is the first position of `input` that is not acceptable.
pub open spec fn first_bad_flag(input: Seq<char>, allowed: Seq<char>, i: int) -> bool {
    &&& 0 <= i < input.len()
    &&& !flag_ok_at(input, allowed, i)
    &&& forall|j: int| 0 <= j < i ==> flag_ok_at(input, allowed, j)
}

/// The error for an unacceptable flag `c`: not allowed, or given twice.
pub open spec fn flag_error(allowed: Seq<char>, c: char) -> EdError {
    if allowed.contains(c) {
        EdError::FlagDuplicate(c)
    } else {
        EdError::FlagUndefined(c)
    }
}

/// Parses the flags in `input` (newlines ignored), each of which must be
/// one of `allowed` and given at most once. Returns, for each allowed
/// flag in order, whether it was given.
pub fn parse_flags(input: &str, allowed: &str) -> (r: EdResult<Vec<bool>>)
    requires
        !allowed@.contains('\n'),
    ensures
        r is Ok <==> flags_ok(input@, allowed@),
        r matches Ok(v) ==> v@.len() == allowed@.len()
            && forall|k: int| 0 <= k < allowed@.len() ==> v@[k] == input@.contains(#[trigger] allowed@[k]),
        r matches Err(e) ==> exists|i: int| first_bad_flag(input@, allowed@, i) && e == flag_error(allowed@, input@[i]),
{
    let chars = chars_of(input);
    let flags = chars_of(allowed);
    let mut seen: Vec<bool> = Vec::new();
    let mut k: usize = 0;
    while k < flags.len()
        invariant
            k <= flags@.len(),
            seen@.len() == k,
            forall|m: int| 0 <= m < k ==> !seen@[m],
        decreases flags@.len() - k,
    {
        seen.push(false);
        k = k + 1;
    }
    assert forall|m: int| 0 <= m < flags@.len() implies seen@[m] == chars@.take(0).contains(flags@[m]) by {
        assert(chars@.take(0) =~= Seq::<char>::empty());
    }
    let mut i: usize = 0;
    while i < chars.len()
        invariant
            i <= chars@.len(),
            chars@ == input@,
            flags@ == allowed@,
            !allowed@.contains('\n'),
            seen@.len() == flags@.len(),
            forall|m: int| 0 <= m < flags@.len() ==> seen@[m] == chars@.take(i as int).contains(#[trigger] flags@[m]),
            forall|j: int| 0 <= j < i ==> flag_ok_at(input@, allowed@, j),
        decreases chars@.len() - i,
    {
        let c = char_at(&chars, i);
        let ghost before = seen@;
        assert(chars@.take(i + 1) =~= chars@.take(i as int).push(c));
        if c != '\n' {
            let mut found = false;
            let mut m: usize = 0;
            while m < flags.len()
                invariant
                    m <= flags@.len(),
                    flags@ == allowed@,
                    seen@.len() == flags@.len(),
                    before.len() == flags@.len(),
                    found <==> exists|q: int| 0 <= q < m && #[trigger] flags@[q] == c,
                    forall|q: int| 0 <= q < m && #[trigger] flags@[q] == c ==> before[q] == false,
                    forall|q: int| 0 <= q < m ==> #[trigger] seen@[q] == (before[q] || flags@[q] == c),
                    forall|q: int| m <= q < flags@.len() ==> #[trigger] seen@[q] == before[q],
                    forall|q: int| 0 <= q < flags@.len() ==> before[q] == chars@.take(i as int).contains(#[trigger] flags@[q]),
                    forall|j: int| 0 <= j < i ==> flag_ok_at(input@, allowed@, j),
                    chars@ == input@,
                    i < chars@.len(),
                    c == chars@[i as int],
                    c != '\n',
                decreases flags@.len() - m,
            {
                if char_at(&flags, m) == c {
                    if seen[m] {
                        proof {
                            assert(allowed@[m as int] == c);
                            assert(before[m as int]);
                            assert(allowed@.contains(c));
                            assert(!flag_ok_at(input@, allowed@, i as int));
                            assert(first_bad_flag(input@, allowed@, i as int));
                        }
                        return Err(EdError::FlagDuplicate(c));
                    }
                    seen.set(m, true);
                    found = true;
                }
                m = m + 1;
            }
            if !found {
                proof {
                    assert(!allowed@.contains(c)) by {
                        if allowed@.contains(c) {
                            let q = choose|q: int| 0 <= q < allowed@.len() && #[trigger] allowed@[q] == c;
                            assert(flags@[q] == c);
                        }
                    }
                    assert(first_bad_flag(input@, allowed@, i as int));
                }
                return Err(EdError::FlagUndefined(c));
            }
            proof {
                let q = choose|q: int| 0 <= q < flags@.len() && #[trigger] flags@[q] == c;
                assert(allowed@.contains(c));
                assert(!chars@.take(i as int).contains(c)) by {
                    assert(before[q] == chars@.take(i as int).contains(flags@[q]));
                }
                assert(flag_ok_at(input@, allowed@, i as int));
            }
        }
        proof {
            assert forall|q: int| 0 <= q < flags@.len() implies seen@[q] == chars@.take(i + 1).contains(#[trigger] flags@[q]) by {
                if chars@.take(i + 1).contains(flags@[q]) && !chars@.take(i as int).contains(flags@[q]) {
                    let j = choose|j: int| 0 <= j < i + 1 && #[trigger] chars@.take(i + 1)[j] == flags@[q];
                    if j < i {
                        assert(chars@.take(i as int)[j] == flags@[q]);
                    }
                }
                if chars@.take(i as int).contains(flags@[q]) {
                    let j = choose|j: int| 0 <= j < i && #[trigger] chars@.take(i as int)[j] == flags@[q];
                    assert(chars@.take(i + 1)[j] == flags@[q]);
                }
                if flags@[q] == c {
                    assert(chars@.take(i + 1)[i as int] == c);
                }
                if c == '\n' {
                    assert(flags@[q] != '\n');
                }
            }
        }
        i = i + 1;
    }
    assert(chars@.take(i as int) =~= input@);
    Ok(seen)
}

} // verus!
