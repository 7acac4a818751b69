//! Which files of the shared score directory count: the name says whose
//! records a file holds, the file's owner has to agree.

use vstd::prelude::*;
use crate::chars::chars_of;
use crate::scoreboard::MAX_FILE;

verus! {

/// Whether every character is an ASCII digit.
pub open spec fn all_digits(s: Seq<char>) -> bool {
    forall|i: int| 0 <= i < s.len() ==> '0' <= #[trigger] s[i] && s[i] <= '9'
}

/// The number that ASCII digits spell.
pub open spec fn digits_value(s: Seq<char>) -> nat
    decreases s.len(),
{
    if s.len() == 0 {
        0
    } else {
        digits_value(s.drop_last()) * 10 + (s.last() as nat - '0' as nat) as nat
    }
}

/// The account a file of the shared directory belongs to by its name:
/// `<uid>.json`, the uid in decimal digits only (no sign), within `u32`.
pub open spec fn spec_file_uid(name: Seq<char>) -> Option<u32> {
    if name.len() > 5 && name.subrange(name.len() - 5, name.len() as int) == ".json"@
        && all_digits(name.subrange(0, name.len() - 5))
        && digits_value(name.subrange(0, name.len() - 5)) <= u32::MAX {
        Some(digits_value(name.subrange(0, name.len() - 5)) as u32)
    } else {
        None
    }
}

proof fn lemma_digits_grow(s: Seq<char>, i: int)
    requires
        0 <= i <= s.len(),
        all_digits(s),
    ensures
        digits_value(s.take(i)) <= digits_value(s),
    decreases s.len() - i,
{
    if i < s.len() {
        lemma_digits_grow(s, i + 1);
        assert(s.take(i + 1).drop_last() =~= s.take(i));
        assert(s.take(i + 1).last() == s[i]);
        assert(s[i] >= '0');
        assert(digits_value(s.take(i + 1)) == digits_value(s.take(i)) * 10 + (s[i] as nat - '0' as nat) as nat);
    } else {
        assert(s.take(i) =~= s);
    }
}

/// The uid in a score file's name, when the name is `<uid>.json` with a
/// plain decimal uid that fits a `u32`; anything else is not a score file.
pub fn file_uid(name: &str) -> (r: Option<u32>)
    ensures
        r == spec_file_uid(name@),
{
    proof {
        reveal_strlit(".json");
    }
    let cs = chars_of(name);
    let n = cs.len();
    if n <= 5 || cs[n - 5] != '.' || cs[n - 4] != 'j' || cs[n - 3] != 's' || cs[n - 2] != 'o' || cs[n - 1] != 'n' {
        proof {
            if n > 5 {
                let tail = name@.subrange(n - 5, n as int);
                if tail == ".json"@ {
                    assert(tail[0] == '.' && tail[1] == 'j' && tail[2] == 's' && tail[3] == 'o' && tail[4] == 'n');
                }
            }
        }
        return None;
    }
    assert(name@.subrange(n - 5, n as int) =~= ".json"@);
    let ghost stem = name@.subrange(0, n - 5);
    let mut v: u64 = 0;
    let mut i: usize = 0;
    while i < n - 5
        invariant
            n == name@.len(),
            n > 5,
            cs@ == name@,
            stem == name@.subrange(0, n - 5),
            i <= n - 5,
            all_digits(stem.take(i as int)),
            v == digits_value(stem.take(i as int)),
            v <= u32::MAX,
        decreases n - 5 - i,
    {
        let c = cs[i];
        assert(stem[i as int] == c);
        assert(stem.take(i + 1).drop_last() =~= stem.take(i as int));
        assert(stem.take(i + 1).last() == c);
        if c < '0' || c > '9' {
            assert(!all_digits(stem)) by {
                assert(!('0' <= stem[i as int] && stem[i as int] <= '9'));
            }
            return None;
        }
        let d = (c as u32 - '0' as u32) as u64;
        let nv = v * 10 + d;
        if nv > 0xFFFF_FFFF {
            proof {
                assert(all_digits(stem.take(i + 1)));
                if all_digits(stem) {
                    lemma_digits_grow(stem, i + 1);
                }
            }
            return None;
        }
        v = nv;
        i = i + 1;
    }
    assert(stem.take((n - 5) as int) =~= stem);
    Some(v as u32)
}

/// Whether a score file counts once its name gave `uid`: a regular file (a
/// link does not count), no larger than [`MAX_FILE`], owned by that very
/// account, so nobody can post records in another's name.
pub fn file_counts(uid: u32, is_file: bool, len: u64, owner: u32) -> (b: bool)
    ensures
        b == (is_file && len <= MAX_FILE && owner == uid),
{
    is_file && len <= MAX_FILE && owner == uid
}

} // verus!
