//! The machine's names for the header: host name, kernel release and the
//! distribution's pretty name, made from what the system files hold (the
//! caller reads them; `None` means the file could not be read).

use vstd::prelude::*;
use crate::chars::{chars_of, spec_trim, string_of, owned};

verus! {

/// Where the line that starts at `a` ends: the next `'\n'` at or after `a`,
/// or the end of the text.
pub open spec fn next_nl(s: Seq<char>, a: int) -> int
    decreases s.len() - a,
{
    if a < 0 || a >= s.len() {
        s.len() as int
    } else if s[a] == '\n' {
        a
    } else {
        next_nl(s, a + 1)
    }
}

/// The content of the line from `a` to the line break `b`, as `str::lines`
/// gives it: a `'\r'` right before the `'\n'` is part of the line break.
pub open spec fn line_end(s: Seq<char>, a: int, b: int) -> int {
    if b < s.len() && b > a && s[b - 1] == '\r' { b - 1 } else { b }
}

/// The text with every leading and trailing `'"'` removed, as
/// `str::trim_matches('"')` gives it.
pub open spec fn strip_quotes(t: Seq<char>) -> Seq<char>
    decreases t.len(),
{
    if t.len() > 0 && t[0] == '"' {
        strip_quotes(t.drop_first())
    } else if t.len() > 0 && t.last() == '"' {
        strip_quotes(t.drop_last())
    } else {
        t
    }
}

/// The key that `os-release` gives the distribution's display name under.
pub open spec fn pretty_key() -> Seq<char> {
    seq!['P', 'R', 'E', 'T', 'T', 'Y', '_', 'N', 'A', 'M', 'E', '=']
}

/// The value of the first line, from the line starting at `a` on, that
/// begins with `PRETTY_NAME=`, with its quotes stripped.
pub open spec fn pretty_from(s: Seq<char>, a: int) -> Option<Seq<char>>
    decreases s.len() - a,
{
    if a < 0 || a >= s.len() {
        None
    } else {
        let b = next_nl(s, a);
        let e = line_end(s, a, b);
        proof {
            lemma_next_nl(s, a);
        }
        let line = s.subrange(a, e);
        if line.len() >= 12 && line.subrange(0, 12) == pretty_key() {
            Some(strip_quotes(line.subrange(12, line.len() as int)))
        } else if b >= s.len() {
            None
        } else {
            pretty_from(s, b + 1)
        }
    }
}

/// The line break after `a` is not before it, and is a `'\n'` unless it
/// is the end of the text.
pub proof fn lemma_next_nl(s: Seq<char>, a: int)
    requires
        0 <= a <= s.len(),
    ensures
        a <= next_nl(s, a) <= s.len(),
        next_nl(s, a) < s.len() ==> s[next_nl(s, a)] == '\n',
    decreases s.len() - a,
{
    if a < s.len() && s[a] != '\n' {
        lemma_next_nl(s, a + 1);
    }
}

fn strip_quotes_exec(t: &[char]) -> (r: Vec<char>)
    ensures
        r@ == strip_quotes(t@),
{
    let mut a: usize = 0;
    let mut b: usize = t.len();
    assert(t@.subrange(0, t@.len() as int) =~= t@);
    while a < b && t[a] == '"'
        invariant
            a <= b <= t@.len(),
            b == t@.len(),
            strip_quotes(t@) == strip_quotes(t@.subrange(a as int, b as int)),
        decreases b - a,
    {
        proof {
            assert(t@.subrange(a as int, b as int).drop_first() =~= t@.subrange(a + 1, b as int));
        }
        a = a + 1;
    }
    while a < b && t[b - 1] == '"'
        invariant
            a <= b <= t@.len(),
            a < b ==> t@[a as int] != '"',
            strip_quotes(t@) == strip_quotes(t@.subrange(a as int, b as int)),
        decreases b - a,
    {
        proof {
            let sub = t@.subrange(a as int, b as int);
            assert(sub[0] != '"');
            assert(sub.drop_last() =~= t@.subrange(a as int, b - 1));
        }
        b = b - 1;
    }
    let mut r: Vec<char> = Vec::new();
    let mut i: usize = a;
    while i < b
        invariant
            a <= i <= b <= t@.len(),
            r@ == t@.subrange(a as int, i as int),
        decreases b - i,
    {
        r.push(t[i]);
        i = i + 1;
        assert(r@ =~= t@.subrange(a as int, i as int));
    }
    proof {
        let sub = t@.subrange(a as int, b as int);
        if sub.len() > 0 {
            assert(sub[0] != '"');
            assert(sub.last() != '"');
        }
    }
    r
}

/// The distribution's display name from the text of `/etc/os-release`: the
/// first `PRETTY_NAME=` line's value without its quotes; `Linux` when the
/// file could not be read or has no such line.
pub fn os_name(os_release: Option<&str>) -> (r: String)
    ensures
        r@ == match os_release {
            Some(s) => match pretty_from(s@, 0) {
                Some(v) => v,
                None => "Linux"@,
            },
            None => "Linux"@,
        },
{
    let s = match os_release {
        Some(s) => s,
        None => return owned("Linux"),
    };
    let cs = chars_of(s);
    let n = cs.len();
    let key = ['P', 'R', 'E', 'T', 'T', 'Y', '_', 'N', 'A', 'M', 'E', '='];
    assert(key@ == pretty_key());
    let mut a: usize = 0;
    while a < n
        invariant
            n == cs@.len(),
            cs@ == s@,
            os_release == Some(s),
            key@ == pretty_key(),
            a <= n,
            pretty_from(s@, 0) == pretty_from(s@, a as int),
        decreases n - a,
    {
        let mut b = a;
        while b < n && cs[b] != '\n'
            invariant
                a <= b <= n,
                n == cs@.len(),
                next_nl(cs@, a as int) == next_nl(cs@, b as int),
            decreases n - b,
        {
            b = b + 1;
        }
        proof {
            lemma_next_nl(cs@, a as int);
        }
        let e = if b < n && b > a && cs[b - 1] == '\r' { b - 1 } else { b };
        assert(next_nl(cs@, b as int) == b as int);
        assert(next_nl(s@, a as int) == b as int);
        assert(e as int == line_end(s@, a as int, b as int));
        let mut found = false;
        if e - a >= 12 {
            let mut matches = true;
            let mut k: usize = 0;
            while matches && k < 12
                invariant
                    a + 12 <= e,
                    e <= n,
                    n == cs@.len(),
                    k <= 12,
                    key@ == pretty_key(),
                    matches ==> forall|j: int| 0 <= j < k ==> cs@[a + j] == key@[j],
                    !matches ==> exists|j: int| 0 <= j < k && cs@[a + j] != key@[j],
                decreases 12 - k,
            {
                if cs[a + k] != key[k] {
                    matches = false;
                }
                k = k + 1;
            }
            proof {
                let line = cs@.subrange(a as int, e as int);
                if matches {
                    assert(line.subrange(0, 12) =~= pretty_key());
                } else {
                    let j = choose|j: int| 0 <= j < k && cs@[a + j] != key@[j];
                    assert(line.subrange(0, 12)[j] != pretty_key()[j]);
                }
            }
            found = matches;
        }
        let ghost line = s@.subrange(a as int, e as int);
        assert(found == (line.len() >= 12 && line.subrange(0, 12) == pretty_key()));
        if found {
            let v = strip_quotes_exec(vstd::slice::slice_subrange(cs.as_slice(), a + 12, e));
            proof {
                assert(cs@.subrange(a + 12, e as int) =~= cs@.subrange(a as int, e as int).subrange(12, (e - a) as int));
            }
            assert(pretty_from(s@, a as int) == Some(strip_quotes(line.subrange(12, line.len() as int))));
            return string_of(v.as_slice());
        }
        if b >= n {
            return owned("Linux");
        }
        a = b + 1;
    }
    owned("Linux")
}

/// A one-line system file's content (trimmed), or `fallback` when it could
/// not be read.
pub open spec fn trimmed_or(read: Option<&str>, fallback: Seq<char>) -> Seq<char> {
    match read {
        Some(s) => spec_trim(s@),
        None => fallback,
    }
}

fn trim_chars(s: &str) -> (r: String)
    ensures
        r@ == spec_trim(s@),
{
    let cs = crate::chars::trimmed(s);
    string_of(cs.as_slice())
}

/// The host name from `/proc/sys/kernel/hostname` (trimmed); `localhost`
/// when it could not be read.
pub fn hostname(read: Option<&str>) -> (r: String)
    ensures
        r@ == trimmed_or(read, "localhost"@),
{
    match read {
        Some(s) => trim_chars(s),
        None => owned("localhost"),
    }
}

/// The kernel release from `/proc/sys/kernel/osrelease` (trimmed);
/// `unknown` when it could not be read.
pub fn kernel_release(read: Option<&str>) -> (r: String)
    ensures
        r@ == trimmed_or(read, "unknown"@),
{
    match read {
        Some(s) => trim_chars(s),
        None => owned("unknown"),
    }
}

} // verus!
