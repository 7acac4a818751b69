//! Character and string primitives that the rest of the library builds on.

use vstd::prelude::*;
use vstd::string::StringExecFns;

verus! {

/// Appends one character to a string.
///
/// Wraps `String::push`; std documents that it appends the given char to
/// the end of the string, which is all this contract claims.
#[verifier::external_body]
pub(crate) fn push_char(s: &mut String, c: char)
    ensures
        final(s)@ == old(s)@.push(c),
{
    s.push(c);
}

/// The characters of a string slice, in order.
pub fn chars_of(s: &str) -> (v: Vec<char>)
    ensures
        v@ == s@,
{
    let n = s.unicode_len();
    let mut v: Vec<char> = Vec::new();
    let mut i: usize = 0;
    while i < n
        invariant
            n == s@.len(),
            i <= n,
            v@ == s@.subrange(0, i as int),
        decreases n - i,
    {
        let c = s.get_char(i);
        v.push(c);
        i = i + 1;
        assert(v@ =~= s@.subrange(0, i as int));
    }
    assert(v@ =~= s@);
    v
}

/// Builds a `String` holding exactly the given characters.
pub fn string_of(cs: &[char]) -> (s: String)
    ensures
        s@ == cs@,
{
    let mut s = String::new();
    let mut i: usize = 0;
    while i < cs.len()
        invariant
            i <= cs@.len(),
            s@ == cs@.subrange(0, i as int),
        decreases cs@.len() - i,
    {
        push_char(&mut s, cs[i]);
        i = i + 1;
        assert(s@ =~= cs@.subrange(0, i as int));
    }
    assert(s@ =~= cs@);
    s
}

/// An owned copy of a string slice.
pub fn owned(s: &str) -> (r: String)
    ensures
        r@ == s@,
{
    String::from_str(s)
}

} // verus!

verus! {

/// What `char::is_control` decides: the general category `Cc`, which is
/// exactly U+0000..=U+001F and U+007F..=U+009F.
pub open spec fn spec_is_control(c: char) -> bool {
    (c as u32) <= 0x1f || (0x7f <= (c as u32) && (c as u32) <= 0x9f)
}

/// What `char::is_whitespace` decides: the Unicode `White_Space` property.
pub open spec fn spec_is_whitespace(c: char) -> bool {
    let u = c as u32;
    ||| 0x09 <= u && u <= 0x0d
    ||| u == 0x20
    ||| u == 0x85
    ||| u == 0xa0
    ||| u == 0x1680
    ||| 0x2000 <= u && u <= 0x200a
    ||| u == 0x2028
    ||| u == 0x2029
    ||| u == 0x202f
    ||| u == 0x205f
    ||| u == 0x3000
}

/// Whether a character is a control character (`char::is_control`).
pub(crate) fn is_control(c: char) -> (r: bool)
    ensures
        r == spec_is_control(c),
{
    let u = c as u32;
    u <= 0x1f || (0x7f <= u && u <= 0x9f)
}

/// Whether a character is whitespace (`char::is_whitespace`).
pub(crate) fn is_whitespace(c: char) -> (r: bool)
    ensures
        r == spec_is_whitespace(c),
{
    let u = c as u32;
    (0x09 <= u && u <= 0x0d) || u == 0x20 || u == 0x85 || u == 0xa0 || u == 0x1680
        || (0x2000 <= u && u <= 0x200a) || u == 0x2028 || u == 0x2029 || u == 0x202f
        || u == 0x205f || u == 0x3000
}

/// Every character is printable ASCII (U+0020..U+007E).
pub open spec fn printable_ascii(s: Seq<char>) -> bool {
    forall|i: int| 0 <= i < s.len() ==> 0x20 <= (#[trigger] s[i]) as u32 && (s[i] as u32) < 0x7f
}

/// The display width that `unicode_width` assigns to one character.
pub uninterp spec fn char_width(c: char) -> Option<usize>;

/// The display width that `unicode_width` assigns to a whole string.
pub uninterp spec fn str_width(s: Seq<char>) -> usize;

/// A character's width as the layout code uses it: unknown widths count as 0.
pub open spec fn cw(c: char) -> nat {
    match char_width(c) {
        Some(w) => w as nat,
        None => 0,
    }
}

/// Sum of the per-character widths of a sequence.
pub open spec fn sum_cw(s: Seq<char>) -> nat
    decreases s.len(),
{
    if s.len() == 0 {
        0
    } else {
        sum_cw(s.drop_last()) + cw(s.last())
    }
}

/// `UnicodeWidthChar::width` of `unicode_width`.
///
/// Claims what the crate's source shows: control codes below U+0020 and in
/// U+007F..U+009F give `None`, printable ASCII gives `Some(1)`, everything
/// from U+00A0 on gives `Some` of a width read from a `u8` table.
#[verifier::external_body]
pub(crate) fn char_display_width(c: char) -> (r: Option<usize>)
    ensures
        r == char_width(c),
        (c as u32) < 0x20 ==> r is None,
        0x20 <= (c as u32) && (c as u32) < 0x7f ==> r == Some(1usize),
        0x7f <= (c as u32) && (c as u32) < 0xa0 ==> r is None,
        0xa0 <= (c as u32) ==> r is Some,
        r matches Some(w) ==> w <= 255,
{
    unicode_width::UnicodeWidthChar::width(c)
}

/// `UnicodeWidthStr::width` of `unicode_width`.
///
/// The crate documents ligature rules under which a string's width differs
/// from the sum of its characters' widths, so the result is only named here.
/// Two facts are stated, as the source's right-to-left sum shows them: the
/// empty string is zero columns wide, and a string of printable ASCII alone
/// (U+0020..U+007E, each one column, none starting a ligature) is as wide
/// as it is long.
#[verifier::external_body]
pub(crate) fn display_width(s: &str) -> (r: usize)
    ensures
        r == str_width(s@),
        s@.len() == 0 ==> r == 0,
        printable_ascii(s@) ==> r == s@.len(),
{
    unicode_width::UnicodeWidthStr::width(s)
}

/// Width of one character, with unknown widths counted as zero.
pub fn char_cols(c: char) -> (r: usize)
    ensures
        r == cw(c),
        r <= 255,
{
    match char_display_width(c) {
        Some(w) => w,
        None => 0,
    }
}

} // verus!

verus! {

/// What `char::to_ascii_lowercase` gives: ASCII capitals become small
/// letters, everything else is unchanged.
pub open spec fn spec_lower(c: char) -> char {
    if 'A' <= c && c <= 'Z' { ((c as u32) + 32) as char } else { c }
}

/// What `char::to_ascii_uppercase` gives.
pub open spec fn spec_upper(c: char) -> char {
    if 'a' <= c && c <= 'z' { ((c as u32) - 32) as char } else { c }
}

/// A character with an ASCII capital made small (`char::to_ascii_lowercase`).
pub(crate) fn ascii_lower(c: char) -> (r: char)
    ensures
        r == spec_lower(c),
{
    if 'A' <= c && c <= 'Z' {
        ((c as u8) + 32) as char
    } else {
        c
    }
}

/// A character with an ASCII small letter made a capital
/// (`char::to_ascii_uppercase`).
pub(crate) fn ascii_upper(c: char) -> (r: char)
    ensures
        r == spec_upper(c),
{
    if 'a' <= c && c <= 'z' {
        ((c as u8) - 32) as char
    } else {
        c
    }
}

/// Index of the first character that is not whitespace (the length if none).
pub open spec fn lead_ws(s: Seq<char>) -> int
    decreases s.len(),
{
    if s.len() == 0 || !spec_is_whitespace(s[0]) { 0 } else { 1 + lead_ws(s.drop_first()) }
}

/// Index just past the last character that is not whitespace (0 if none).
pub open spec fn trail_end(s: Seq<char>) -> int
    decreases s.len(),
{
    if s.len() == 0 || !spec_is_whitespace(s.last()) { s.len() as int } else { trail_end(s.drop_last()) }
}

/// What `str::trim` gives: leading and trailing `White_Space` removed.
pub open spec fn spec_trim(s: Seq<char>) -> Seq<char> {
    if lead_ws(s) >= trail_end(s) { Seq::empty() } else { s.subrange(lead_ws(s), trail_end(s)) }
}

/// A setting word as the parsers compare it: trimmed, ASCII-lowercased.
pub open spec fn spec_norm(s: Seq<char>) -> Seq<char> {
    spec_trim(s).map_values(|c: char| spec_lower(c))
}

proof fn lemma_lead_ws(s: Seq<char>)
    ensures
        0 <= lead_ws(s) <= s.len(),
        forall|i: int| 0 <= i < lead_ws(s) ==> spec_is_whitespace(#[trigger] s[i]),
        lead_ws(s) < s.len() ==> !spec_is_whitespace(s[lead_ws(s)]),
    decreases s.len(),
{
    if s.len() > 0 && spec_is_whitespace(s[0]) {
        lemma_lead_ws(s.drop_first());
        assert forall|i: int| 0 <= i < lead_ws(s) implies spec_is_whitespace(#[trigger] s[i]) by {
            if i > 0 {
                assert(s[i] == s.drop_first()[i - 1]);
            }
        }
    }
}

proof fn lemma_trail_end(s: Seq<char>)
    ensures
        0 <= trail_end(s) <= s.len(),
        forall|i: int| trail_end(s) <= i < s.len() ==> spec_is_whitespace(#[trigger] s[i]),
        trail_end(s) > 0 ==> !spec_is_whitespace(s[trail_end(s) - 1]),
    decreases s.len(),
{
    if s.len() > 0 && spec_is_whitespace(s.last()) {
        lemma_trail_end(s.drop_last());
        assert forall|i: int| trail_end(s) <= i < s.len() implies spec_is_whitespace(#[trigger] s[i]) by {
            if i < s.len() - 1 {
                assert(s[i] == s.drop_last()[i]);
            }
        }
    }
}

/// A string with leading and trailing `White_Space` removed, as characters.
pub fn trimmed(s: &str) -> (r: Vec<char>)
    ensures
        r@ == spec_trim(s@),
{
    let cs = chars_of(s);
    let n = cs.len();
    proof {
        lemma_lead_ws(s@);
        lemma_trail_end(s@);
    }
    let mut lo: usize = 0;
    while lo < n && is_whitespace(cs[lo])
        invariant
            cs@ == s@,
            n == cs@.len(),
            lo <= n,
            lo <= lead_ws(s@),
            0 <= lead_ws(s@) <= s@.len(),
            forall|i: int| 0 <= i < lead_ws(s@) ==> spec_is_whitespace(#[trigger] s@[i]),
            lead_ws(s@) < s@.len() ==> !spec_is_whitespace(s@[lead_ws(s@)]),
        decreases n - lo,
    {
        lo = lo + 1;
    }
    let mut hi: usize = n;
    while hi > 0 && is_whitespace(cs[hi - 1])
        invariant
            cs@ == s@,
            n == cs@.len(),
            hi <= n,
            hi >= trail_end(s@),
            0 <= trail_end(s@) <= s@.len(),
            forall|i: int| trail_end(s@) <= i < s@.len() ==> spec_is_whitespace(#[trigger] s@[i]),
            trail_end(s@) > 0 ==> !spec_is_whitespace(s@[trail_end(s@) - 1]),
        decreases hi,
    {
        hi = hi - 1;
    }
    assert(lo == lead_ws(s@));
    assert(hi == trail_end(s@));
    let mut out: Vec<char> = Vec::new();
    if lo < hi {
        let mut i = lo;
        while i < hi
            invariant
                cs@ == s@,
                lo <= i <= hi <= n,
                n == cs@.len(),
                out@ == s@.subrange(lo as int, i as int),
            decreases hi - i,
        {
            out.push(cs[i]);
            i = i + 1;
            assert(out@ =~= s@.subrange(lo as int, i as int));
        }
    } else {
        assert(out@ =~= spec_trim(s@));
    }
    out
}

/// A string trimmed and ASCII-lowercased, as characters.
pub fn normalized(s: &str) -> (r: Vec<char>)
    ensures
        r@ == spec_norm(s@),
{
    let t = trimmed(s);
    let mut out: Vec<char> = Vec::new();
    let mut i: usize = 0;
    while i < t.len()
        invariant
            t@ == spec_trim(s@),
            i <= t@.len(),
            out@ == t@.subrange(0, i as int).map_values(|c: char| spec_lower(c)),
        decreases t@.len() - i,
    {
        out.push(ascii_lower(t[i]));
        i = i + 1;
        assert(out@ =~= t@.subrange(0, i as int).map_values(|c: char| spec_lower(c)));
    }
    assert(t@.subrange(0, t@.len() as int) =~= t@);
    out
}

/// Whether the characters spell exactly the given string.
pub fn same_chars(cs: &[char], lit: &str) -> (r: bool)
    ensures
        r == (cs@ == lit@),
{
    let l = chars_of(lit);
    if cs.len() != l.len() {
        return false;
    }
    let mut i: usize = 0;
    while i < cs.len()
        invariant
            l@ == lit@,
            cs@.len() == l@.len(),
            i <= cs@.len(),
            forall|j: int| 0 <= j < i ==> cs@[j] == l@[j],
        decreases cs@.len() - i,
    {
        if cs[i] != l[i] {
            return false;
        }
        i = i + 1;
    }
    assert(cs@ =~= l@);
    true
}

/// Whether two string slices hold the same characters.
pub fn str_eq(a: &str, b: &str) -> (r: bool)
    ensures
        r == (a@ == b@),
{
    let ca = chars_of(a);
    same_chars(ca.as_slice(), b)
}

/// The characters with ASCII capitals made small.
pub open spec fn spec_lowered(s: Seq<char>) -> Seq<char> {
    s.map_values(|c: char| spec_lower(c))
}

/// The characters of `s` with ASCII capitals made small, as
/// `str::to_ascii_lowercase` gives them.
pub fn lowered(s: &str) -> (r: Vec<char>)
    ensures
        r@ == spec_lowered(s@),
{
    let cs = chars_of(s);
    let mut out: Vec<char> = Vec::new();
    let mut i: usize = 0;
    while i < cs.len()
        invariant
            cs@ == s@,
            i <= cs@.len(),
            out@ == cs@.subrange(0, i as int).map_values(|c: char| spec_lower(c)),
        decreases cs@.len() - i,
    {
        out.push(ascii_lower(cs[i]));
        proof {
            assert(cs@.subrange(0, i + 1) == cs@.subrange(0, i as int).push(cs@[i as int]));
        }
        i = i + 1;
    }
    assert(cs@.subrange(0, cs@.len() as int) == cs@);
    out
}

/// The characters with trailing `White_Space` removed, as `str::trim_end`
/// leaves them.
pub fn trim_end_chars(cs: &[char]) -> (r: Vec<char>)
    ensures
        r@ == cs@.subrange(0, trail_end(cs@)),
{
    proof {
        lemma_trail_end(cs@);
    }
    let mut end: usize = cs.len();
    while end > 0 && is_whitespace(cs[end - 1])
        invariant
            end <= cs@.len(),
            trail_end(cs@) <= end,
            0 <= trail_end(cs@) <= cs@.len(),
            forall|i: int| trail_end(cs@) <= i < cs@.len() ==> spec_is_whitespace(#[trigger] cs@[i]),
            trail_end(cs@) > 0 ==> !spec_is_whitespace(cs@[trail_end(cs@) - 1]),
        decreases end,
    {
        end = end - 1;
    }
    let mut r: Vec<char> = Vec::new();
    let mut i: usize = 0;
    while i < end
        invariant
            end <= cs@.len(),
            i <= end,
            r@ == cs@.subrange(0, i as int),
        decreases end - i,
    {
        r.push(cs[i]);
        i = i + 1;
        assert(r@ =~= cs@.subrange(0, i as int));
    }
    r
}

/// A word of small ASCII letters.
pub open spec fn small_word(s: Seq<char>) -> bool {
    s.len() > 0 && forall|i: int| 0 <= i < s.len() ==> 'a' <= #[trigger] s[i] && s[i] <= 'z'
}

/// A word of small ASCII letters reads as itself, and so does the same word
/// in capitals: a setting matches whatever its case.
pub proof fn lemma_norm_of_word(s: Seq<char>)
    requires
        small_word(s),
    ensures
        spec_norm(s) == s,
        spec_norm(s.map_values(|c: char| spec_upper(c))) == s,
{
    assert(!spec_is_whitespace(s[0]));
    assert(!spec_is_whitespace(s.last()));
    assert(lead_ws(s) == 0);
    assert(trail_end(s) == s.len());
    assert(s.subrange(0, s.len() as int) =~= s);
    assert(spec_norm(s) =~= s);
    let u = s.map_values(|c: char| spec_upper(c));
    assert(forall|i: int| 0 <= i < u.len() ==> 'A' <= #[trigger] u[i] && u[i] <= 'Z');
    assert(!spec_is_whitespace(u[0]));
    assert(!spec_is_whitespace(u.last()));
    assert(lead_ws(u) == 0);
    assert(trail_end(u) == u.len());
    assert(u.subrange(0, u.len() as int) =~= u);
    assert(spec_norm(u) =~= s);
}

} // verus!
