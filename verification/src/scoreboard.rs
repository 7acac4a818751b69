//! The dino game's leaderboard, shared by everyone on the machine.
//!
//! Every account writes only its own file of records; the board is the merge
//! of all files. Each record carries a keyed tag bound to the account, the
//! name, the score and the time: a record edited by hand no longer matches
//! its tag and is silently dropped. The file handling lives with the caller;
//! this module holds the rules.

use vstd::prelude::*;
use crate::siphash::{dec_digits, hex16, hex16_exec, push_decimal, siphash24, spec_siphash24};
use vstd::string::StringSliceAdditionalSpecFns;
use crate::chars::{sum_cw,
    char_cols, cw, is_control, is_whitespace, push_char, spec_is_control, spec_is_whitespace,
    chars_of, string_of,
};

verus! {

/// How many places the board shows.
pub const TOP: usize = 5;

/// The widest a name may be, in columns (a wide character counts two).
pub const NAME_WIDTH: usize = 12;

/// How many records one account's own file keeps (one per name).
pub const KEEP_PER_USER: usize = 50;

/// Other accounts' files above this size are not read.
pub const MAX_FILE: u64 = 65536;

/// The default shared directory.
pub const SHARED_DIR: &'static str = "/var/lib/sysview/dino";

/// The environment variable that names another shared directory.
pub const ENV_DIR: &'static str = "SYSVIEW_DINO_SCORES";

// ─────────────────────────────────────────────────────────────────────────
// Name sanitising
// ─────────────────────────────────────────────────────────────────────────

/// Where the sanitiser stands after some prefix of the raw name.
pub struct SanState {
    pub out: Seq<char>,
    pub width: nat,
    pub pending: bool,
    pub done: bool,
}

/// One character through the sanitiser: control characters vanish,
/// whitespace runs become one pending space (never leading), zero-width
/// characters vanish, and the first character that would push the name past
/// [`NAME_WIDTH`] columns ends it.
pub open spec fn san_step(st: SanState, c: char) -> SanState {
    if st.done || spec_is_control(c) {
        st
    } else if spec_is_whitespace(c) {
        SanState { pending: st.out.len() > 0, ..st }
    } else if cw(c) == 0 {
        st
    } else {
        let extra: nat = if st.pending { 1 } else { 0 };
        if st.width + extra + cw(c) > NAME_WIDTH {
            SanState { done: true, ..st }
        } else {
            let spaced = if st.pending { st.out.push(' ') } else { st.out };
            SanState { out: spaced.push(c), width: st.width + extra + cw(c), pending: false, done: false }
        }
    }
}

/// The sanitiser run over a whole raw name.
pub open spec fn san_run(raw: Seq<char>) -> SanState
    decreases raw.len(),
{
    if raw.len() == 0 {
        SanState { out: Seq::empty(), width: 0, pending: false, done: false }
    } else {
        san_step(san_run(raw.drop_last()), raw.last())
    }
}

/// The name as it appears on the board.
pub open spec fn spec_sanitize(raw: Seq<char>) -> Seq<char> {
    san_run(raw).out
}

/// What the sanitiser keeps true at every step: its width is the width of
/// what it wrote, it stays within [`NAME_WIDTH`], it never writes a control
/// character, a leading or doubled space, or a zero-width character.
pub open spec fn san_inv(st: SanState) -> bool {
    &&& st.width == sum_w(st.out)
    &&& st.width <= NAME_WIDTH
    &&& st.pending ==> st.out.len() > 0
    &&& clean_name(st.out)
}

/// Width of a sanitised name: a space is one column, anything else its width.
pub open spec fn sum_w(s: Seq<char>) -> nat
    decreases s.len(),
{
    if s.len() == 0 {
        0
    } else {
        sum_w(s.drop_last()) + if s.last() == ' ' { 1 } else { cw(s.last()) }
    }
}

/// A name fit for the screen: no control characters, no zero-width
/// characters, spaces only single and between other characters.
pub open spec fn clean_name(s: Seq<char>) -> bool {
    &&& forall|i: int| 0 <= i < s.len() ==> !spec_is_control(#[trigger] s[i])
    &&& forall|i: int| 0 <= i < s.len() && s[i] != ' ' ==> cw(#[trigger] s[i]) > 0 && !spec_is_whitespace(s[i])
    &&& s.len() > 0 ==> s[0] != ' ' && s.last() != ' '
    &&& forall|i: int| 0 <= i < s.len() - 1 && #[trigger] s[i] == ' ' ==> s[i + 1] != ' '
}

proof fn lemma_sum_w_push(s: Seq<char>, c: char)
    ensures
        sum_w(s.push(c)) == sum_w(s) + if c == ' ' { 1 } else { cw(c) },
{
    assert(s.push(c).drop_last() =~= s);
}

proof fn lemma_san_inv(raw: Seq<char>)
    ensures
        san_inv(san_run(raw)),
    decreases raw.len(),
{
    if raw.len() > 0 {
        lemma_san_inv(raw.drop_last());
        let st = san_run(raw.drop_last());
        let c = raw.last();
        if !st.done && !spec_is_control(c) && !spec_is_whitespace(c) && cw(c) != 0 {
            let extra: nat = if st.pending { 1 } else { 0 };
            if st.width + extra + cw(c) <= NAME_WIDTH {
                let spaced = if st.pending { st.out.push(' ') } else { st.out };
                if st.pending {
                    lemma_sum_w_push(st.out, ' ');
                }
                lemma_sum_w_push(spaced, c);
                assert(c != ' ');
                let o = spaced.push(c);
                assert forall|i: int| 0 <= i < o.len() - 1 && #[trigger] o[i] == ' ' implies o[i + 1] != ' ' by {
                    if i < st.out.len() as int - 1 {
                        assert(o[i] == st.out[i]);
                    }
                }
                assert forall|i: int| 0 <= i < o.len() && o[i] != ' ' implies cw(#[trigger] o[i]) > 0 && !spec_is_whitespace(o[i]) by {
                    if i < st.out.len() {
                        assert(o[i] == st.out[i]);
                    }
                }
                assert forall|i: int| 0 <= i < o.len() implies !spec_is_control(#[trigger] o[i]) by {
                    if i < st.out.len() {
                        assert(o[i] == st.out[i]);
                    }
                }
            }
        }
    }
}

proof fn lemma_sum_w_prefix(s: Seq<char>, j: int)
    requires
        0 <= j <= s.len(),
    ensures
        sum_w(s.take(j)) <= sum_w(s),
    decreases s.len() - j,
{
    if j < s.len() {
        lemma_sum_w_prefix(s, j + 1);
        assert(s.take(j + 1).drop_last() =~= s.take(j));
    } else {
        assert(s.take(j) =~= s);
    }
}

proof fn lemma_clean_fixed(s: Seq<char>, k: int)
    requires
        clean_name(s),
        sum_w(s) <= NAME_WIDTH,
        0 <= k <= s.len(),
    ensures
        ({
            let st = san_run(s.take(k));
            &&& !st.done
            &&& st.width == sum_w(st.out)
            &&& if k > 0 && s[k - 1] == ' ' {
                st.out == s.take(k - 1) && st.pending
            } else {
                st.out == s.take(k) && !st.pending
            }
        }),
    decreases k,
{
    if k > 0 {
        lemma_clean_fixed(s, k - 1);
        let pre = s.take(k);
        assert(pre.drop_last() =~= s.take(k - 1));
        assert(pre.last() == s[k - 1]);
        let c = s[k - 1];
        let st = san_run(s.take(k - 1));
        assert(!spec_is_control(c));
        if c == ' ' {
            assert(spec_is_whitespace(c));
            assert(s[0] != ' ');
            assert(k - 1 > 0);
            assert(s[k - 2] != ' ');
            assert(st.out == s.take(k - 1));
        } else {
            assert(cw(c) > 0 && !spec_is_whitespace(c));
            lemma_sum_w_prefix(s, k);
            if k - 1 > 0 && s[k - 2] == ' ' {
                lemma_sum_w_push(s.take(k - 2), ' ');
                assert(s.take(k - 2).push(' ') =~= s.take(k - 1));
                lemma_sum_w_push(s.take(k - 1), c);
                assert(s.take(k - 1).push(c) =~= s.take(k));
                assert(s.take(k - 2).push(' ').push(c) =~= s.take(k));
            } else {
                lemma_sum_w_push(s.take(k - 1), c);
                assert(s.take(k - 1).push(c) =~= s.take(k));
            }
        }
    }
}

/// Sanitising is idempotent: a name already on the board comes back as is.
pub proof fn lemma_sanitize_idempotent(raw: Seq<char>)
    ensures
        spec_sanitize(spec_sanitize(raw)) == spec_sanitize(raw),
{
    lemma_san_inv(raw);
    let s = spec_sanitize(raw);
    lemma_clean_fixed(s, s.len() as int);
    assert(s.take(s.len() as int) =~= s);
    if s.len() > 0 {
        assert(s.last() != ' ');
    }
}

/// A visible character: not a control character, not whitespace, and at
/// least one column wide.
pub open spec fn visible(c: char) -> bool {
    !spec_is_control(c) && !spec_is_whitespace(c) && cw(c) > 0
}

proof fn lemma_done_stays(x: Seq<char>, t: Seq<char>)
    requires
        san_run(x).done,
    ensures
        san_run(x + t) == san_run(x),
    decreases t.len(),
{
    if t.len() == 0 {
        assert(x + t =~= x);
    } else {
        lemma_done_stays(x, t.drop_last());
        assert((x + t).drop_last() =~= x + t.drop_last());
        assert((x + t).last() == t.last());
    }
}

/// The name ends at the first character that does not fit: when a visible
/// character leaves the name as it was, nothing written after it ever
/// appears.
pub proof fn lemma_the_name_ends_where_it_overflows(raw: Seq<char>, c: char, rest: Seq<char>)
    requires
        visible(c),
        spec_sanitize(raw.push(c)) == spec_sanitize(raw),
    ensures
        spec_sanitize(raw.push(c) + rest) == spec_sanitize(raw),
{
    assert(raw.push(c).drop_last() =~= raw);
    let st = san_run(raw);
    if !st.done {
        let extra: nat = if st.pending { 1 } else { 0 };
        if st.width + extra + cw(c) <= NAME_WIDTH {
            let spaced = if st.pending { st.out.push(' ') } else { st.out };
            assert(san_run(raw.push(c)).out == spaced.push(c));
            assert(spaced.push(c).len() > st.out.len());
        }
    }
    assert(san_run(raw.push(c)).done);
    lemma_done_stays(raw.push(c), rest);
}

/// A character that fits is kept: a board name followed by a visible
/// character that still fits in [`NAME_WIDTH`] columns comes back with that
/// character added.
pub proof fn lemma_a_fitting_character_is_kept(name: Seq<char>, c: char)
    requires
        clean_name(name),
        sum_w(name) <= NAME_WIDTH,
        visible(c),
        sum_w(name) + cw(c) <= NAME_WIDTH,
    ensures
        spec_sanitize(name.push(c)) == name.push(c),
{
    lemma_clean_fixed(name, name.len() as int);
    assert(name.take(name.len() as int) =~= name);
    if name.len() > 0 {
        assert(name[name.len() - 1] != ' ');
    }
    assert(name.push(c).drop_last() =~= name);
}

/// Adding characters to a raw name never changes what was already kept:
/// the name for a longer input starts with the name for its prefix.
pub proof fn lemma_sanitize_extends(raw: Seq<char>, rest: Seq<char>)
    ensures
        spec_sanitize(raw).is_prefix_of(spec_sanitize(raw + rest)),
    decreases rest.len(),
{
    if rest.len() == 0 {
        assert(raw + rest =~= raw);
    } else {
        lemma_sanitize_extends(raw, rest.drop_last());
        assert((raw + rest).drop_last() =~= raw + rest.drop_last());
        let a = spec_sanitize(raw);
        let b = spec_sanitize(raw + rest.drop_last());
        let c2 = spec_sanitize(raw + rest);
        assert(b.is_prefix_of(c2));
        assert(a.is_prefix_of(b));
        assert forall|k: int| 0 <= k < a.len() implies a[k] == c2[k] by {
            assert(a[k] == b[k]);
            assert(b[k] == c2[k]);
        }
    }
}

/// Turns a raw name into what may reach the screen.
///
/// Control characters are dropped (a tab or newline does not become a
/// separating space), runs of whitespace (the ideographic space included)
/// become one space between words, zero-width characters are dropped, and
/// the name ends before the first character that would make it wider than
/// [`NAME_WIDTH`] columns.
pub fn sanitize_name(raw: &str) -> (r: String)
    ensures
        r@ == spec_sanitize(raw@),
        clean_name(r@),
        sum_w(r@) <= NAME_WIDTH,
{
    let cs = chars_of(raw);
    let mut out: Vec<char> = Vec::new();
    let mut width: usize = 0;
    let mut pending = false;
    let mut done = false;
    let mut i: usize = 0;
    while i < cs.len()
        invariant
            cs@ == raw@,
            i <= cs@.len(),
            san_run(cs@.subrange(0, i as int)) == (SanState {
                out: out@,
                width: width as nat,
                pending,
                done,
            }),
            width <= NAME_WIDTH,
        decreases cs@.len() - i,
    {
        let c = cs[i];
        proof {
            let pre = cs@.subrange(0, i as int + 1);
            assert(pre.drop_last() =~= cs@.subrange(0, i as int));
            lemma_san_inv(cs@.subrange(0, i as int));
        }
        if !done && !is_control(c) {
            if is_whitespace(c) {
                pending = out.len() > 0;
            } else {
                let w = char_cols(c);
                if w != 0 {
                    let extra: usize = if pending { 1 } else { 0 };
                    if width + extra + w > NAME_WIDTH {
                        done = true;
                    } else {
                        if pending {
                            out.push(' ');
                        }
                        out.push(c);
                        width = width + extra + w;
                        pending = false;
                    }
                }
            }
        }
        i = i + 1;
    }
    proof {
        assert(cs@.subrange(0, cs@.len() as int) =~= raw@);
        lemma_san_inv(raw@);
    }
    string_of(out.as_slice())
}

// ─────────────────────────────────────────────────────────────────────────
// Entries and the merged board
// ─────────────────────────────────────────────────────────────────────────

/// One verified record on the board.
#[derive(Clone, Debug, PartialEq, Eq)]
pub struct Entry {
    pub name: String,
    pub score: u32,
    /// When it was recorded (epoch seconds). Of two equal scores the earlier
    /// one ranks higher.
    pub at: u64,
    /// The account it came from: the owner of the file, not what the file says.
    pub uid: u32,
}

/// An entry as plain values.
pub struct EntryView {
    pub name: Seq<char>,
    pub score: u32,
    pub at: u64,
    pub uid: u32,
}

impl View for Entry {
    type V = EntryView;

    open spec fn view(&self) -> EntryView {
        EntryView { name: self.name@, score: self.score, at: self.at, uid: self.uid }
    }
}

/// The views of a sequence of entries.
pub open spec fn views(s: Seq<Entry>) -> Seq<EntryView> {
    s.map_values(|e: Entry| e@)
}

/// The record with its name sanitised.
pub open spec fn cleaned(e: EntryView) -> EntryView {
    EntryView { name: spec_sanitize(e.name), ..e }
}

/// A record that can be on the board at all: a name and a score above zero.
pub open spec fn counts(e: EntryView) -> bool {
    e.name.len() > 0 && e.score > 0
}

/// `a` ranks above `b`: a higher score, or the same score recorded earlier.
pub open spec fn ranks_above(a: EntryView, b: EntryView) -> bool {
    a.score > b.score || (a.score == b.score && a.at < b.at)
}

/// Index of the first record with this name, or -1.
pub open spec fn name_pos(s: Seq<EntryView>, name: Seq<char>) -> int
    decreases s.len(),
{
    if s.len() == 0 {
        -1
    } else {
        let p = name_pos(s.drop_last(), name);
        if p >= 0 {
            p
        } else if s.last().name == name {
            s.len() - 1
        } else {
            -1
        }
    }
}

/// Records folded one name at a time, in input order: a name seen again
/// replaces its earlier record only when it ranks above it.
pub open spec fn fold_names(s: Seq<EntryView>) -> Seq<EntryView>
    decreases s.len(),
{
    if s.len() == 0 {
        Seq::empty()
    } else {
        let acc = fold_names(s.drop_last());
        let e = cleaned(s.last());
        if !counts(e) {
            acc
        } else {
            let k = name_pos(acc, e.name);
            if k >= 0 {
                if ranks_above(e, acc[k]) {
                    acc.update(k, e)
                } else {
                    acc
                }
            } else {
                acc.push(e)
            }
        }
    }
}

/// Where a record goes in a ranked list: before the first record it ranks
/// above, so records that tie keep their order.
pub open spec fn ins_pos(s: Seq<EntryView>, e: EntryView) -> int
    decreases s.len(),
{
    if s.len() == 0 {
        0
    } else if ranks_above(e, s[0]) {
        0
    } else {
        1 + ins_pos(s.drop_first(), e)
    }
}

/// The ranked order (a stable sort by score, then time).
pub open spec fn ranked(s: Seq<EntryView>) -> Seq<EntryView>
    decreases s.len(),
{
    if s.len() == 0 {
        Seq::empty()
    } else {
        let r = ranked(s.drop_last());
        let p = ins_pos(r, s.last());
        r.take(p).push(s.last()) + r.skip(p)
    }
}

/// The board that merging these records gives.
pub open spec fn spec_merge(s: Seq<EntryView>) -> Seq<EntryView> {
    ranked(fold_names(s))
}

proof fn lemma_name_pos(s: Seq<EntryView>, name: Seq<char>)
    ensures
        -1 <= name_pos(s, name) < s.len(),
        name_pos(s, name) >= 0 ==> s[name_pos(s, name)].name == name,
        name_pos(s, name) >= 0 ==> forall|j: int| 0 <= j < name_pos(s, name) ==> s[j].name != name,
        name_pos(s, name) < 0 ==> forall|j: int| 0 <= j < s.len() ==> s[j].name != name,
    decreases s.len(),
{
    if s.len() > 0 {
        let d = s.drop_last();
        lemma_name_pos(d, name);
        assert forall|j: int| 0 <= j < name_pos(s, name) implies s[j].name != name by {
            assert(s[j] == d[j]);
        }
        assert forall|j: int| 0 <= j < s.len() && name_pos(s, name) < 0 implies s[j].name != name by {
            if j < s.len() - 1 {
                assert(s[j] == d[j]);
            }
        }
    }
}

proof fn lemma_views_remove0(s: Seq<Entry>)
    requires
        s.len() > 0,
    ensures
        views(s.remove(0)) =~= views(s).drop_first(),
        views(s).len() == s.len(),
        views(s)[0] == s[0]@,
{
    assert forall|k: int| 0 <= k < s.len() - 1 implies #[trigger] s.remove(0)[k] == s[k + 1] by {}
}

proof fn lemma_ins_pos(s: Seq<EntryView>, e: EntryView)
    ensures
        0 <= ins_pos(s, e) <= s.len(),
        forall|j: int| 0 <= j < ins_pos(s, e) ==> !ranks_above(e, #[trigger] s[j]),
        ins_pos(s, e) < s.len() ==> ranks_above(e, s[ins_pos(s, e)]),
    decreases s.len(),
{
    if s.len() > 0 && !ranks_above(e, s[0]) {
        lemma_ins_pos(s.drop_first(), e);
        assert forall|j: int| 0 <= j < ins_pos(s, e) implies !ranks_above(e, #[trigger] s[j]) by {
            if j > 0 {
                assert(s[j] == s.drop_first()[j - 1]);
            }
        }
    }
}

/// Index of the first entry with this name.
fn find_name(v: &Vec<Entry>, name: &String) -> (r: Option<usize>)
    ensures
        match r {
            Some(k) => name_pos(views(v@), name@) == k as int,
            None => name_pos(views(v@), name@) < 0,
        },
{
    let mut i: usize = 0;
    proof {
        lemma_name_pos(views(v@), name@);
    }
    while i < v.len()
        invariant
            i <= v@.len(),
            forall|j: int| 0 <= j < i ==> v@[j].name@ != name@,
            -1 <= name_pos(views(v@), name@) < v@.len(),
            name_pos(views(v@), name@) >= 0 ==> views(v@)[name_pos(views(v@), name@)].name == name@,
            name_pos(views(v@), name@) >= 0 ==> forall|j: int| 0 <= j < name_pos(views(v@), name@) ==> views(v@)[j].name != name@,
            name_pos(views(v@), name@) < 0 ==> forall|j: int| 0 <= j < v@.len() ==> views(v@)[j].name != name@,
        decreases v@.len() - i,
    {
        if v[i].name == *name {
            proof {
                assert(views(v@)[i as int] == v@[i as int]@);
                assert forall|j: int| 0 <= j < i implies views(v@)[j].name != name@ by {
                    assert(views(v@)[j] == v@[j]@);
                }
            }
            return Some(i);
        }
        assert(views(v@)[i as int] == v@[i as int]@);
        i = i + 1;
    }
    None
}

/// Where `e` goes in the already ranked `v`.
fn insert_position(v: &Vec<Entry>, e: &Entry) -> (r: usize)
    ensures
        r as int == ins_pos(views(v@), e@),
{
    let ghost s = views(v@);
    let mut i: usize = 0;
    proof {
        lemma_ins_pos(s, e@);
    }
    while i < v.len()
        invariant
            s == views(v@),
            i <= v@.len(),
            forall|j: int| 0 <= j < i ==> !ranks_above(e@, #[trigger] s[j]),
            0 <= ins_pos(s, e@) <= s.len(),
            forall|j: int| 0 <= j < ins_pos(s, e@) ==> !ranks_above(e@, #[trigger] s[j]),
            ins_pos(s, e@) < s.len() ==> ranks_above(e@, s[ins_pos(s, e@)]),
        decreases v@.len() - i,
    {
        let o = &v[i];
        if e.score > o.score || (e.score == o.score && e.at < o.at) {
            assert(ranks_above(e@, s[i as int]));
            return i;
        }
        i = i + 1;
    }
    i
}

/// Ranked order: no record ranks above one placed before it.
pub open spec fn is_ranked(s: Seq<EntryView>) -> bool {
    forall|i: int, j: int| 0 <= i < j < s.len() ==> !ranks_above(#[trigger] s[j], #[trigger] s[i])
}

/// No two records share a name.
pub open spec fn names_distinct(s: Seq<EntryView>) -> bool {
    forall|i: int, j: int| 0 <= i < s.len() && 0 <= j < s.len() && i != j ==> #[trigger] s[i].name != #[trigger] s[j].name
}

proof fn lemma_ranked(t: Seq<EntryView>)
    ensures
        ranked(t).len() == t.len(),
        forall|x: EntryView| ranked(t).contains(x) <==> t.contains(x),
        is_ranked(ranked(t)),
        names_distinct(t) ==> names_distinct(ranked(t)),
    decreases t.len(),
{
    if t.len() > 0 {
        let d = t.drop_last();
        let e = t.last();
        lemma_ranked(d);
        let r = ranked(d);
        lemma_ins_pos(r, e);
        let p = ins_pos(r, e);
        let out = r.take(p).push(e) + r.skip(p);
        assert(ranked(t) == out);
        assert forall|k: int| 0 <= k < out.len() implies #[trigger] out[k] == if k < p { r[k] } else if k == p { e } else { r[k - 1] } by {}
        assert forall|x: EntryView| out.contains(x) <==> t.contains(x) by {
            if out.contains(x) {
                let k = choose|k: int| 0 <= k < out.len() && out[k] == x;
                if k == p {
                    assert(t[t.len() - 1] == x);
                } else {
                    let kk = if k < p { k } else { k - 1 };
                    assert(r[kk] == x);
                    assert(r.contains(x));
                    assert(d.contains(x));
                    let m = choose|m: int| 0 <= m < d.len() && d[m] == x;
                    assert(t[m] == x);
                }
            }
            if t.contains(x) {
                let m = choose|m: int| 0 <= m < t.len() && t[m] == x;
                if m == t.len() - 1 {
                    assert(out[p] == x);
                } else {
                    assert(d[m] == x);
                    assert(d.contains(x));
                    assert(r.contains(x));
                    let k = choose|k: int| 0 <= k < r.len() && r[k] == x;
                    let kk = if k < p { k } else { k + 1 };
                    assert(out[kk] == x);
                }
            }
        }
        assert forall|i: int, j: int| 0 <= i < j < out.len() implies !ranks_above(#[trigger] out[j], #[trigger] out[i]) by {
            if i == p {
                assert(ranks_above(e, r[p]));
                assert(!ranks_above(r[j - 1], r[p]));
            } else if j == p {
                assert(!ranks_above(e, r[i]));
            } else {
                let ii = if i < p { i } else { i - 1 };
                let jj = if j < p { j } else { j - 1 };
                assert(ii < jj);
                assert(!ranks_above(r[jj], r[ii]));
            }
        }
        if names_distinct(t) {
            assert(names_distinct(d)) by {
                assert forall|i: int, j: int| 0 <= i < d.len() && 0 <= j < d.len() && i != j implies #[trigger] d[i].name != #[trigger] d[j].name by {
                    assert(d[i] == t[i] && d[j] == t[j]);
                }
            }
            assert forall|k: int| 0 <= k < r.len() implies #[trigger] r[k].name != e.name by {
                assert(r.contains(r[k]));
                assert(d.contains(r[k]));
                let m = choose|m: int| 0 <= m < d.len() && d[m] == r[k];
                assert(t[m] == d[m]);
                assert(t[t.len() - 1] == e);
            }
            assert forall|i: int, j: int| 0 <= i < out.len() && 0 <= j < out.len() && i != j implies #[trigger] out[i].name != #[trigger] out[j].name by {
                if i == p {
                    let jj = if j < p { j } else { j - 1 };
                    assert(r[jj].name != e.name);
                } else if j == p {
                    let ii = if i < p { i } else { i - 1 };
                    assert(r[ii].name != e.name);
                } else {
                    let ii = if i < p { i } else { i - 1 };
                    let jj = if j < p { j } else { j - 1 };
                    assert(r[ii].name != r[jj].name);
                }
            }
        }
    }
}

/// What folding by name keeps true: names are distinct, every kept record
/// is a cleaned input that counts, and every cleaned input that counts is
/// matched by a kept record of the same name that it does not rank above.
pub open spec fn fold_ok(inputs: Seq<EntryView>, acc: Seq<EntryView>) -> bool {
    &&& names_distinct(acc)
    &&& forall|k: int| 0 <= k < acc.len() ==> counts(#[trigger] acc[k])
        && exists|m: int| 0 <= m < inputs.len() && cleaned(#[trigger] inputs[m]) == acc[k]
    &&& forall|m: int| 0 <= m < inputs.len() && counts(cleaned(#[trigger] inputs[m])) ==>
        exists|k: int| 0 <= k < acc.len() && acc[k].name == cleaned(inputs[m]).name
            && !ranks_above(cleaned(inputs[m]), #[trigger] acc[k])
}

#[verifier::spinoff_prover]
#[verifier::rlimit(40)]
proof fn lemma_fold_names(s: Seq<EntryView>)
    ensures
        fold_ok(s, fold_names(s)),
    decreases s.len(),
{
    if s.len() > 0 {
        let d = s.drop_last();
        lemma_fold_names(d);
        let acc = fold_names(d);
        let e = cleaned(s.last());
        let res = fold_names(s);
        assert forall|m: int| 0 <= m < d.len() implies #[trigger] d[m] == s[m] by {}
        if counts(e) {
            lemma_name_pos(acc, e.name);
            let k = name_pos(acc, e.name);
            if k >= 0 {
                if ranks_above(e, acc[k]) {
                    assert(res == acc.update(k, e));
                    assert forall|i: int, j: int| 0 <= i < res.len() && 0 <= j < res.len() && i != j implies #[trigger] res[i].name != #[trigger] res[j].name by {
                        assert(acc[i].name != acc[j].name);
                    }
                    assert forall|q: int| 0 <= q < res.len() implies counts(#[trigger] res[q])
                        && exists|m: int| 0 <= m < s.len() && cleaned(#[trigger] s[m]) == res[q] by {
                        if q == k {
                            assert(cleaned(s[s.len() - 1]) == res[q]);
                        } else {
                            let m = choose|m: int| 0 <= m < d.len() && cleaned(#[trigger] d[m]) == acc[q];
                            assert(cleaned(s[m]) == res[q]);
                        }
                    }
                    assert forall|m: int| 0 <= m < s.len() && counts(cleaned(#[trigger] s[m])) implies
                        exists|q: int| 0 <= q < res.len() && res[q].name == cleaned(s[m]).name
                            && !ranks_above(cleaned(s[m]), #[trigger] res[q]) by {
                        if m == s.len() - 1 {
                            assert(res[k].name == e.name && !ranks_above(e, res[k]));
                        } else {
                            let q = choose|q: int| 0 <= q < acc.len() && acc[q].name == cleaned(d[m]).name
                                && !ranks_above(cleaned(d[m]), #[trigger] acc[q]);
                            if q == k {
                                assert(!ranks_above(cleaned(d[m]), e));
                                assert(res[k] == e);
                            } else {
                                assert(res[q] == acc[q]);
                            }
                        }
                    }
                } else {
                    assert(res == acc);
                    assert forall|q: int| 0 <= q < res.len() implies counts(#[trigger] res[q])
                        && exists|m: int| 0 <= m < s.len() && cleaned(#[trigger] s[m]) == res[q] by {
                        let m = choose|m: int| 0 <= m < d.len() && cleaned(#[trigger] d[m]) == acc[q];
                        assert(cleaned(s[m]) == res[q]);
                    }
                    assert forall|m: int| 0 <= m < s.len() && counts(cleaned(#[trigger] s[m])) implies
                        exists|q: int| 0 <= q < res.len() && res[q].name == cleaned(s[m]).name
                            && !ranks_above(cleaned(s[m]), #[trigger] res[q]) by {
                        if m == s.len() - 1 {
                            assert(res[k].name == e.name && !ranks_above(e, res[k]));
                        } else {
                            assert(d[m] == s[m]);
                        }
                    }
                }
            } else {
                assert(res == acc.push(e));
                assert forall|i: int, j: int| 0 <= i < res.len() && 0 <= j < res.len() && i != j implies #[trigger] res[i].name != #[trigger] res[j].name by {
                    if i < acc.len() && j < acc.len() {
                        assert(acc[i].name != acc[j].name);
                    } else if i < acc.len() {
                        assert(acc[i].name != e.name);
                    } else {
                        assert(acc[j].name != e.name);
                    }
                }
                assert forall|q: int| 0 <= q < res.len() implies counts(#[trigger] res[q])
                    && exists|m: int| 0 <= m < s.len() && cleaned(#[trigger] s[m]) == res[q] by {
                    if q == acc.len() {
                        assert(cleaned(s[s.len() - 1]) == res[q]);
                    } else {
                        let m = choose|m: int| 0 <= m < d.len() && cleaned(#[trigger] d[m]) == acc[q];
                        assert(cleaned(s[m]) == res[q]);
                    }
                }
                assert forall|m: int| 0 <= m < s.len() && counts(cleaned(#[trigger] s[m])) implies
                    exists|q: int| 0 <= q < res.len() && res[q].name == cleaned(s[m]).name
                        && !ranks_above(cleaned(s[m]), #[trigger] res[q]) by {
                    if m == s.len() - 1 {
                        assert(res[acc.len() as int] == e);
                    } else {
                        let q = choose|q: int| 0 <= q < acc.len() && acc[q].name == cleaned(d[m]).name
                            && !ranks_above(cleaned(d[m]), #[trigger] acc[q]);
                        assert(res[q] == acc[q]);
                    }
                }
            }
        } else {
            assert(res == acc);
            assert forall|q: int| 0 <= q < res.len() implies counts(#[trigger] res[q])
                && exists|m: int| 0 <= m < s.len() && cleaned(#[trigger] s[m]) == res[q] by {
                let m = choose|m: int| 0 <= m < d.len() && cleaned(#[trigger] d[m]) == acc[q];
                assert(cleaned(s[m]) == res[q]);
            }
            assert forall|m: int| 0 <= m < s.len() && counts(cleaned(#[trigger] s[m])) implies
                exists|q: int| 0 <= q < res.len() && res[q].name == cleaned(s[m]).name
                    && !ranks_above(cleaned(s[m]), #[trigger] res[q]) by {
                assert(m != s.len() - 1);
                assert(d[m] == s[m]);
            }
        }
    }
}

/// The law of the board: after a merge, records are ranked (no record
/// ranks above one placed before it), no name appears twice, every record
/// is a sanitised input with a name and a score above zero, and every input
/// that counts is on the board under its sanitised name with a score at
/// least as high.
pub proof fn lemma_merge_keeps_best(s: Seq<EntryView>)
    ensures
        is_ranked(spec_merge(s)),
        names_distinct(spec_merge(s)),
        forall|k: int| 0 <= k < spec_merge(s).len() ==> counts(#[trigger] spec_merge(s)[k])
            && exists|m: int| 0 <= m < s.len() && cleaned(#[trigger] s[m]) == spec_merge(s)[k],
        forall|m: int| 0 <= m < s.len() && counts(cleaned(#[trigger] s[m])) ==>
            exists|k: int| 0 <= k < spec_merge(s).len() && spec_merge(s)[k].name == cleaned(s[m]).name
                && spec_merge(s)[k].score >= s[m].score,
{
    let f = fold_names(s);
    lemma_fold_names(s);
    lemma_ranked(f);
    let b = ranked(f);
    assert forall|k: int| 0 <= k < b.len() implies counts(#[trigger] b[k])
        && exists|m: int| 0 <= m < s.len() && cleaned(#[trigger] s[m]) == b[k] by {
        assert(b.contains(b[k]));
        assert(f.contains(b[k]));
        let q = choose|q: int| 0 <= q < f.len() && f[q] == b[k];
        assert(counts(f[q]));
        let m = choose|m: int| 0 <= m < s.len() && cleaned(#[trigger] s[m]) == f[q];
        assert(cleaned(s[m]) == b[k]);
    }
    assert forall|m: int| 0 <= m < s.len() && counts(cleaned(#[trigger] s[m])) implies
        exists|k: int| 0 <= k < b.len() && b[k].name == cleaned(s[m]).name && b[k].score >= s[m].score by {
        let q = choose|q: int| 0 <= q < f.len() && f[q].name == cleaned(s[m]).name
            && !ranks_above(cleaned(s[m]), #[trigger] f[q]);
        assert(f.contains(f[q]));
        assert(b.contains(f[q]));
        let k = choose|k: int| 0 <= k < b.len() && b[k] == f[q];
        assert(b[k].name == cleaned(s[m]).name && b[k].score >= s[m].score);
    }
}

/// The merged board: one record per name, the best one, highest first.
#[derive(Clone, Debug, PartialEq, Eq)]
pub struct Board {
    entries: Vec<Entry>,
}

impl View for Board {
    type V = Seq<EntryView>;

    closed spec fn view(&self) -> Seq<EntryView> {
        views(self.entries@)
    }
}

impl Board {
    /// An empty board.
    pub fn new() -> (b: Board)
        ensures
            b@.len() == 0,
    {
        Board { entries: Vec::new() }
    }

    /// Merges records from any source into one board.
    ///
    /// Names are sanitised first; records without a name or with a zero
    /// score are dropped. Of the records that share a name, the one with the
    /// higher score stays (of equal scores, the earlier). The board is ranked
    /// by score, then by time, and records that tie keep their order.
    pub fn merge(entries: Vec<Entry>) -> (b: Board)
        ensures
            b@ == spec_merge(views(entries@)),
    {
        let ghost input = views(entries@);
        let mut rest = entries;
        let mut out: Vec<Entry> = Vec::new();
        let mut i: usize = 0;
        let n = rest.len();
        while rest.len() > 0
            invariant
                n == input.len(),
                i + rest@.len() == n,
                views(rest@) == input.skip(i as int),
                views(out@) == fold_names(input.take(i as int)),
            decreases rest@.len(),
        {
            let ghost before = rest@;
            let mut e = rest.remove(0);
            proof {
                lemma_views_remove0(before);
                assert(input.take(i as int + 1).drop_last() =~= input.take(i as int));
                assert(input.take(i as int + 1).last() == input[i as int]);
                assert(input.skip(i as int)[0] == input[i as int]);
                assert(views(rest@) =~= input.skip(i as int + 1));
            }
            e.name = sanitize_name(&e.name);
            if !e.name.as_str().is_empty() && e.score != 0 {
                proof {
                    lemma_name_pos(views(out@), e.name@);
                }
                match find_name(&out, &e.name) {
                    Some(k) => {
                        if e.score > out[k].score || (e.score == out[k].score && e.at < out[k].at) {
                            out.set(k, e);
                            proof {
                                assert(views(out@) =~= fold_names(input.take(i as int + 1)));
                            }
                        }
                    },
                    None => {
                        out.push(e);
                        proof {
                            assert(views(out@) =~= fold_names(input.take(i as int + 1)));
                        }
                    },
                }
            }
            i = i + 1;
        }
        proof {
            assert(input.take(n as int) =~= input);
        }
        let ghost folded = views(out@);
        let mut sorted: Vec<Entry> = Vec::new();
        let mut j: usize = 0;
        let m = out.len();
        while out.len() > 0
            invariant
                m == folded.len(),
                j + out@.len() == m,
                views(out@) == folded.skip(j as int),
                views(sorted@) == ranked(folded.take(j as int)),
            decreases out@.len(),
        {
            let ghost before = out@;
            let e = out.remove(0);
            proof {
                lemma_views_remove0(before);
                assert(folded.take(j as int + 1).drop_last() =~= folded.take(j as int));
                assert(folded.skip(j as int)[0] == folded[j as int]);
                assert(views(out@) =~= folded.skip(j as int + 1));
            }
            let p = insert_position(&sorted, &e);
            proof {
                lemma_ins_pos(views(sorted@), e@);
            }
            sorted.insert(p, e);
            proof {
                assert(views(sorted@) =~= ranked(folded.take(j as int + 1)));
            }
            j = j + 1;
        }
        proof {
            assert(folded.take(m as int) =~= folded);
        }
        Board { entries: sorted }
    }

    /// The top [`TOP`] places (fewer when the board is shorter).
    pub fn top(&self) -> (r: &[Entry])
        ensures
            views(r@) == self@.take(if self@.len() < TOP { self@.len() as int } else { TOP as int }),
    {
        let n = if self.entries.len() < TOP { self.entries.len() } else { TOP };
        let r = vstd::slice::slice_subrange(self.entries.as_slice(), 0, n);
        assert(views(r@) =~= self@.take(n as int));
        r
    }

    /// Every record of the board, ranked.
    pub fn entries(&self) -> (r: &[Entry])
        ensures
            views(r@) == self@,
    {
        self.entries.as_slice()
    }

    /// Whether the board has no records.
    pub fn is_empty(&self) -> (r: bool)
        ensures
            r == (self@.len() == 0),
    {
        self.entries.len() == 0
    }

    /// Whether a score earns a place: it must be above zero and **strictly**
    /// above fifth place, unless the board has fewer than five records.
    pub fn qualifies(&self, score: u32) -> (r: bool)
        ensures
            r == (score != 0 && (self@.len() < TOP || score > self@[TOP as int - 1].score)),
    {
        if score == 0 {
            return false;
        }
        if self.entries.len() >= TOP {
            assert(self@[TOP as int - 1] == self.entries@[TOP as int - 1]@);
            score > self.entries[TOP - 1].score
        } else {
            true
        }
    }

    /// The best score this name holds on the board.
    pub fn best_of(&self, name: &str) -> (r: Option<u32>)
        ensures
            ({
                let k = name_pos(self@, spec_sanitize(name@));
                r == if k >= 0 { Some(self@[k].score) } else { None::<u32> }
            }),
    {
        let name = sanitize_name(name);
        proof {
            lemma_name_pos(self@, name@);
        }
        let len = self.entries.len();
        assert(self@.len() == len);
        match find_name(&self.entries, &name) {
            Some(k) => {
                assert(self@[k as int] == self.entries@[k as int]@);
                Some(self.entries[k].score)
            },
            None => None,
        }
    }

    /// This name's place on the board, counting from 1.
    pub fn rank_of(&self, name: &str) -> (r: Option<usize>)
        ensures
            self@.len() <= usize::MAX,
            name_pos(self@, spec_sanitize(name@)) < self@.len(),
            r matches Some(p) ==> 1 <= p <= self@.len(),
            ({
                let k = name_pos(self@, spec_sanitize(name@));
                r == if k >= 0 { Some((k + 1) as usize) } else { None::<usize> }
            }),
    {
        let name = sanitize_name(name);
        proof {
            lemma_name_pos(self@, name@);
        }
        let len = self.entries.len();
        assert(self@.len() == len);
        match find_name(&self.entries, &name) {
            Some(k) => {
                let n = self.entries.len();
                assert(k < n);
                Some(k + 1)
            },
            None => None,
        }
    }
}

impl Default for Board {
    fn default() -> (b: Board)
        ensures
            b@.len() == 0,
    {
        Board::new()
    }
}


// ─────────────────────────────────────────────────────────────────────────
// Tags
// ─────────────────────────────────────────────────────────────────────────

/// The tag key. It sits in the source on purpose: the tag deters casual
/// edits of the JSON, it is not a security boundary (the account a record
/// came from is what cannot be forged).
pub const KEY: [u8; 16] = [
    0x73, 0x79, 0x73, 0x76, 0x69, 0x65, 0x77, 0x2d, 0x64, 0x69, 0x6e, 0x6f, 0x2d, 0x31, 0x2e, 0x30,
];

/// The bytes a tag is computed over: `"{uid}\n{name}\n{score}\n{at}"` in UTF-8.
pub open spec fn tag_message(uid: u32, name: Seq<char>, score: u32, at: u64) -> Seq<u8> {
    dec_digits(uid as nat) + seq![10u8] + vstd::utf8::encode_utf8(name) + seq![10u8]
        + dec_digits(score as nat) + seq![10u8] + dec_digits(at as nat)
}

/// The tag of a record: SipHash-2-4 under [`KEY`], as 16 hex digits.
pub open spec fn spec_tag(uid: u32, name: Seq<char>, score: u32, at: u64) -> Seq<char> {
    hex16(spec_siphash24(KEY@, tag_message(uid, name, score, at)))
}

/// A record's tag: binds the account, the name, the score and the time.
pub fn tag(uid: u32, name: &str, score: u32, at: u64) -> (t: String)
    ensures
        t@ == spec_tag(uid, name@, score, at),
        t@.len() == 16,
{
    let mut msg: Vec<u8> = Vec::new();
    push_decimal(&mut msg, uid as u64);
    msg.push(10);
    let bytes = name.as_bytes();
    let mut i: usize = 0;
    let ghost start = msg@;
    while i < bytes.len()
        invariant
            i <= bytes@.len(),
            bytes@ == name.spec_bytes(),
            msg@ == start + bytes@.subrange(0, i as int),
        decreases bytes@.len() - i,
    {
        msg.push(bytes[i]);
        i = i + 1;
        assert(msg@ =~= start + bytes@.subrange(0, i as int));
    }
    assert(bytes@.subrange(0, bytes@.len() as int) =~= bytes@);
    msg.push(10);
    push_decimal(&mut msg, score as u64);
    msg.push(10);
    push_decimal(&mut msg, at);
    assert(msg@ =~= tag_message(uid, name@, score, at));
    let h = siphash24(&KEY, msg.as_slice());
    let digits = hex16_exec(h);
    string_of(digits.as_slice())
}

/// One record as it is kept in a file: a tag, and no account (the account
/// is the file's owner).
#[derive(Clone, Debug, PartialEq, Eq)]
pub struct Stored {
    pub name: String,
    pub score: u32,
    pub at: u64,
    pub tag: String,
}

/// The entry a stored record stands for, if it holds: the name is sanitised,
/// it must be non-empty with a score above zero, and the tag must be the one
/// computed for this account over the **sanitised** name. Anything else is
/// dropped without a word.
pub open spec fn spec_verify(uid: u32, name: Seq<char>, score: u32, at: u64, tag: Seq<char>) -> Option<EntryView> {
    let n = spec_sanitize(name);
    if n.len() == 0 || score == 0 || tag != spec_tag(uid, n, score, at) {
        None
    } else {
        Some(EntryView { name: n, score, at, uid })
    }
}

/// Checks a stored record read from the file owned by `uid`.
pub fn verify(uid: u32, s: &Stored) -> (r: Option<Entry>)
    ensures
        match r {
            Some(e) => spec_verify(uid, s.name@, s.score, s.at, s.tag@) == Some(e@),
            None => spec_verify(uid, s.name@, s.score, s.at, s.tag@) is None,
        },
{
    let name = sanitize_name(s.name.as_str());
    if name.as_str().is_empty() || s.score == 0 {
        return None;
    }
    let t = tag(uid, name.as_str(), s.score, s.at);
    if !(s.tag == t) {
        return None;
    }
    Some(Entry { name, score: s.score, at: s.at, uid })
}


impl View for Stored {
    type V = StoredView;

    open spec fn view(&self) -> StoredView {
        StoredView { name: self.name@, score: self.score, at: self.at, tag: self.tag@ }
    }
}

/// A stored record as plain values.
pub struct StoredView {
    pub name: Seq<char>,
    pub score: u32,
    pub at: u64,
    pub tag: Seq<char>,
}

/// The records of one file, owned by `uid`, that survive [`verify`].
pub open spec fn verified_seq(uid: u32, s: Seq<StoredView>) -> Seq<EntryView>
    decreases s.len(),
{
    if s.len() == 0 {
        Seq::empty()
    } else {
        let r = verified_seq(uid, s.drop_last());
        let x = s.last();
        match spec_verify(uid, x.name, x.score, x.at, x.tag) {
            Some(e) => r.push(e),
            None => r,
        }
    }
}

/// The records of several files, file by file.
pub open spec fn verified_files(files: Seq<(u32, Seq<StoredView>)>) -> Seq<EntryView>
    decreases files.len(),
{
    if files.len() == 0 {
        Seq::empty()
    } else {
        verified_files(files.drop_last()) + verified_seq(files.last().0, files.last().1)
    }
}

/// The views of the stored records of a list of files.
pub open spec fn file_views(files: Seq<(u32, Vec<Stored>)>) -> Seq<(u32, Seq<StoredView>)> {
    files.map_values(|f: (u32, Vec<Stored>)| (f.0, f.1@.map_values(|x: Stored| x@)))
}

/// Appends the verified records of one file owned by `uid`.
fn push_verified(out: &mut Vec<Entry>, uid: u32, stored: &Vec<Stored>)
    ensures
        views(final(out)@) == views(old(out)@) + verified_seq(uid, stored@.map_values(|x: Stored| x@)),
{
    let ghost sv = stored@.map_values(|x: Stored| x@);
    let ghost start = views(out@);
    let mut i: usize = 0;
    while i < stored.len()
        invariant
            i <= stored@.len(),
            sv == stored@.map_values(|x: Stored| x@),
            views(out@) == start + verified_seq(uid, sv.take(i as int)),
        decreases stored@.len() - i,
    {
        let r = verify(uid, &stored[i]);
        proof {
            assert(sv.take(i as int + 1).drop_last() =~= sv.take(i as int));
            assert(sv.take(i as int + 1).last() == stored@[i as int]@);
        }
        match r {
            Some(e) => {
                proof {
                    let x = sv.take(i as int + 1).last();
                    assert(x == stored@[i as int]@);
                    assert(verified_seq(uid, sv.take(i as int + 1)) == verified_seq(uid, sv.take(i as int)).push(e@));
                }
                let ghost prev = out@;
                out.push(e);
                assert(views(out@) =~= views(prev).push(e@));
                assert(views(out@) =~= start + verified_seq(uid, sv.take(i as int + 1)));
            },
            None => {},
        }
        i = i + 1;
    }
    assert(sv.take(stored@.len() as int) =~= sv);
}

/// The records of one file owned by `uid`, verified.
pub fn verified_entries(uid: u32, stored: &Vec<Stored>) -> (r: Vec<Entry>)
    ensures
        views(r@) == verified_seq(uid, stored@.map_values(|x: Stored| x@)),
{
    let mut out: Vec<Entry> = Vec::new();
    push_verified(&mut out, uid, stored);
    assert(views(out@) =~= Seq::<EntryView>::empty() + verified_seq(uid, stored@.map_values(|x: Stored| x@)));
    out
}

impl Board {
    /// The board that a set of score files gives: each file's records are
    /// verified against the account that owns the file, then all of them are
    /// merged.
    pub fn from_files(files: &Vec<(u32, Vec<Stored>)>) -> (b: Board)
        ensures
            b@ == spec_merge(verified_files(file_views(files@))),
    {
        let ghost fv = file_views(files@);
        let mut all: Vec<Entry> = Vec::new();
        let mut i: usize = 0;
        while i < files.len()
            invariant
                i <= files@.len(),
                fv == file_views(files@),
                views(all@) == verified_files(fv.take(i as int)),
            decreases files@.len() - i,
        {
            let f = &files[i];
            push_verified(&mut all, f.0, &f.1);
            proof {
                assert(fv.take(i as int + 1).drop_last() =~= fv.take(i as int));
                assert(fv.take(i as int + 1).last() == fv[i as int]);
            }
            i = i + 1;
        }
        assert(fv.take(files@.len() as int) =~= fv);
        Board::merge(all)
    }
}

// ─────────────────────────────────────────────────────────────────────────
// Recording
// ─────────────────────────────────────────────────────────────────────────

/// What recording a score did.
#[derive(Clone, Debug, PartialEq, Eq)]
pub enum Verdict {
    /// Recorded; its place on the merged board, counting from 1.
    Recorded { rank: usize },
    /// The board already holds this name at the same score or higher.
    NotHigher { existing: u32 },
}

/// What recording a score calls for.
#[derive(Debug)]
pub enum RecordPlan {
    /// The sanitised name is empty or the score is zero.
    Invalid,
    /// Nothing is written; the board keeps the existing score.
    NotHigher { existing: u32 },
    /// These records replace the account's own file.
    Write { stored: Vec<Stored> },
}

/// The account's records without this name.
pub open spec fn without_name(s: Seq<EntryView>, name: Seq<char>) -> Seq<EntryView>
    decreases s.len(),
{
    if s.len() == 0 {
        Seq::empty()
    } else {
        let r = without_name(s.drop_last(), name);
        if s.last().name == name { r } else { r.push(s.last()) }
    }
}

/// The stored form of an entry, tagged for its account.
pub open spec fn stored_of(e: EntryView) -> StoredView {
    StoredView { name: e.name, score: e.score, at: e.at, tag: spec_tag(e.uid, e.name, e.score, e.at) }
}

/// The own file after recording: the name's old record goes, the new one
/// comes in, the list is ranked and cut to [`KEEP_PER_USER`].
pub open spec fn spec_new_file(mine: Seq<EntryView>, e: EntryView) -> Seq<StoredView> {
    let r = ranked(without_name(mine, e.name).push(e));
    let kept = if r.len() > KEEP_PER_USER { r.take(KEEP_PER_USER as int) } else { r };
    kept.map_values(|x: EntryView| stored_of(x))
}

/// Ranks a list of entries (a stable sort by score, then time).
fn rank_entries(v: Vec<Entry>) -> (r: Vec<Entry>)
    ensures
        views(r@) == ranked(views(v@)),
{
    let ghost folded = views(v@);
    let mut out = v;
    let mut sorted: Vec<Entry> = Vec::new();
    let mut j: usize = 0;
    let m = out.len();
    while out.len() > 0
        invariant
            m == folded.len(),
            j + out@.len() == m,
            views(out@) == folded.skip(j as int),
            views(sorted@) == ranked(folded.take(j as int)),
        decreases out@.len(),
    {
        let ghost before = out@;
        let e = out.remove(0);
        proof {
            lemma_views_remove0(before);
            assert(folded.take(j as int + 1).drop_last() =~= folded.take(j as int));
            assert(folded.skip(j as int)[0] == folded[j as int]);
            assert(views(out@) =~= folded.skip(j as int + 1));
        }
        let p = insert_position(&sorted, &e);
        proof {
            lemma_ins_pos(views(sorted@), e@);
        }
        sorted.insert(p, e);
        proof {
            assert(views(sorted@) =~= ranked(folded.take(j as int + 1)));
        }
        j = j + 1;
    }
    proof {
        assert(folded.take(m as int) =~= folded);
    }
    sorted
}

/// Decides what recording `score` under `name` at time `at` does.
///
/// `board` is the merged board, `mine` the account's own (verified) records.
/// Of the same name only the best counts: if the board already holds the
/// sanitised name at this score or higher, nothing is written. Otherwise the
/// account's file becomes its records without the name's old entry, plus the
/// new one, ranked and cut to [`KEEP_PER_USER`], each tagged for `uid`.
pub fn plan_record(board: &Board, mine: &Board, uid: u32, name: &str, score: u32, at: u64) -> (r: RecordPlan)
    ensures
        ({
            let n = spec_sanitize(name@);
            let k = name_pos(board@, n);
            match r {
                RecordPlan::Invalid => n.len() == 0 || score == 0,
                RecordPlan::NotHigher { existing } =>
                    n.len() > 0 && score != 0 && k >= 0 && existing == board@[k].score && existing >= score,
                RecordPlan::Write { stored } =>
                    n.len() > 0 && score != 0 && (k >= 0 ==> board@[k].score < score)
                    && stored@.map_values(|x: Stored| x@) == spec_new_file(
                        mine@, EntryView { name: n, score, at, uid }),
            }
        }),
{
    let n = sanitize_name(name);
    if n.as_str().is_empty() || score == 0 {
        return RecordPlan::Invalid;
    }
    let best = board.best_of(n.as_str());
    proof {
        lemma_sanitize_idempotent(name@);
    }
    match best {
        Some(existing) => {
            if existing >= score {
                return RecordPlan::NotHigher { existing };
            }
        },
        None => {},
    }
    let ghost mv = mine@;
    let mut kept: Vec<Entry> = Vec::new();
    let mut i: usize = 0;
    let len = mine.entries.len();
    while i < len
        invariant
            len == mine.entries@.len(),
            mv == views(mine.entries@),
            i <= len,
            views(kept@) == without_name(mv.take(i as int), n@),
        decreases len - i,
    {
        let e = &mine.entries[i];
        proof {
            assert(mv.take(i as int + 1).drop_last() =~= mv.take(i as int));
            assert(mv.take(i as int + 1).last() == e@);
        }
        if !(e.name == n) {
            kept.push(Entry { name: e.name.clone(), score: e.score, at: e.at, uid: e.uid });
            assert(views(kept@) =~= without_name(mv.take(i as int + 1), n@));
        }
        i = i + 1;
    }
    assert(mv.take(len as int) =~= mv);
    let ghost newe = EntryView { name: n@, score, at, uid };
    kept.push(Entry { name: n, score, at, uid });
    assert(views(kept@) =~= without_name(mv, newe.name).push(newe));
    let mut ranked_v = rank_entries(kept);
    if ranked_v.len() > KEEP_PER_USER {
        ranked_v.truncate(KEEP_PER_USER);
    }
    let ghost rv = views(ranked_v@);
    let mut stored: Vec<Stored> = Vec::new();
    let mut j: usize = 0;
    while j < ranked_v.len()
        invariant
            j <= ranked_v@.len(),
            rv == views(ranked_v@),
            stored@.map_values(|x: Stored| x@) == rv.take(j as int).map_values(|x: EntryView| stored_of(x)),
        decreases ranked_v@.len() - j,
    {
        let e = &ranked_v[j];
        let t = tag(e.uid, e.name.as_str(), e.score, e.at);
        let ghost prev = stored@;
        let st = Stored { name: e.name.clone(), score: e.score, at: e.at, tag: t };
        assert(st@ == stored_of(e@));
        stored.push(st);
        proof {
            assert(stored@.map_values(|x: Stored| x@) =~= prev.map_values(|x: Stored| x@).push(st@));
            assert(rv.take(j as int + 1).map_values(|x: EntryView| stored_of(x)) =~= rv.take(j as int).map_values(|x: EntryView| stored_of(x)).push(stored_of(rv[j as int])));
            assert(rv[j as int] == e@);
            assert(stored@.map_values(|x: Stored| x@) =~= rv.take(j as int + 1).map_values(|x: EntryView| stored_of(x)));
        }
        j = j + 1;
    }
    assert(rv.take(ranked_v@.len() as int) =~= rv);
    RecordPlan::Write { stored }
}

proof fn lemma_without_name(s: Seq<EntryView>, name: Seq<char>)
    ensures
        forall|k: int| 0 <= k < without_name(s, name).len() ==> (#[trigger] without_name(s, name)[k]).name != name
            && s.contains(without_name(s, name)[k]),
        names_distinct(s) ==> names_distinct(without_name(s, name)),
    decreases s.len(),
{
    if s.len() > 0 {
        let d = s.drop_last();
        lemma_without_name(d, name);
        let r = without_name(d, name);
        assert forall|k: int| 0 <= k < without_name(s, name).len() implies (#[trigger] without_name(s, name)[k]).name != name
            && s.contains(without_name(s, name)[k]) by {
            if k < r.len() {
                assert(without_name(s, name)[k] == r[k]);
                let m = choose|m: int| 0 <= m < d.len() && d[m] == r[k];
                assert(s[m] == d[m]);
            } else {
                assert(s[s.len() - 1] == s.last());
            }
        }
        if names_distinct(s) {
            assert(names_distinct(d)) by {
                assert forall|i: int, j: int| 0 <= i < d.len() && 0 <= j < d.len() && i != j implies #[trigger] d[i].name != #[trigger] d[j].name by {
                    assert(d[i] == s[i] && d[j] == s[j]);
                }
            }
            if s.last().name != name {
                let w = without_name(s, name);
                assert(w == r.push(s.last()));
                assert forall|k: int| 0 <= k < r.len() implies #[trigger] r[k].name != s.last().name by {
                    let m = choose|m: int| 0 <= m < d.len() && d[m] == r[k];
                    assert(s[m] == d[m]);
                    assert(s[s.len() - 1] == s.last());
                }
                assert forall|i: int, j: int| 0 <= i < w.len() && 0 <= j < w.len() && i != j implies #[trigger] w[i].name != #[trigger] w[j].name by {
                    if i < r.len() && j < r.len() {
                        assert(w[i] == r[i] && w[j] == r[j]);
                    } else if i < r.len() {
                        assert(w[i] == r[i]);
                    } else {
                        assert(w[j] == r[j]);
                    }
                }
            }
        }
    }
}

/// Recording keeps one record per name: when the account's records have
/// distinct names, the file written holds the name at most once (as the new
/// record) and no other name twice; and the new record is kept when the
/// account has fewer than [`KEEP_PER_USER`] other names.
pub proof fn lemma_record_keeps_one_per_name(mine: Seq<EntryView>, e: EntryView)
    requires
        names_distinct(mine),
    ensures
        forall|i: int, j: int| 0 <= i < spec_new_file(mine, e).len() && 0 <= j < spec_new_file(mine, e).len() && i != j ==>
            #[trigger] spec_new_file(mine, e)[i].name != #[trigger] spec_new_file(mine, e)[j].name,
        forall|i: int| 0 <= i < spec_new_file(mine, e).len() && (#[trigger] spec_new_file(mine, e)[i]).name == e.name ==>
            spec_new_file(mine, e)[i] == stored_of(e),
        without_name(mine, e.name).len() < KEEP_PER_USER ==> spec_new_file(mine, e).contains(stored_of(e)),
{
    let w = without_name(mine, e.name);
    lemma_without_name(mine, e.name);
    let t = w.push(e);
    assert(names_distinct(t)) by {
        assert forall|i: int, j: int| 0 <= i < t.len() && 0 <= j < t.len() && i != j implies #[trigger] t[i].name != #[trigger] t[j].name by {
            if i < w.len() && j < w.len() {
                assert(t[i] == w[i] && t[j] == w[j]);
            } else if i < w.len() {
                assert(t[i] == w[i]);
                assert(w[i].name != e.name);
            } else {
                assert(t[j] == w[j]);
                assert(w[j].name != e.name);
            }
        }
    }
    lemma_ranked(t);
    let r = ranked(t);
    let kept = if r.len() > KEEP_PER_USER { r.take(KEEP_PER_USER as int) } else { r };
    let f = kept.map_values(|x: EntryView| stored_of(x));
    assert(spec_new_file(mine, e) == f);
    assert forall|i: int, j: int| 0 <= i < f.len() && 0 <= j < f.len() && i != j implies #[trigger] f[i].name != #[trigger] f[j].name by {
        assert(f[i].name == kept[i].name && f[j].name == kept[j].name);
        assert(kept[i] == r[i] && kept[j] == r[j]);
    }
    assert(t.contains(e)) by {
        assert(t[t.len() - 1] == e);
    }
    assert forall|i: int| 0 <= i < f.len() && (#[trigger] f[i]).name == e.name implies f[i] == stored_of(e) by {
        assert(kept[i] == r[i]);
        assert(r.contains(r[i]));
        assert(t.contains(r[i]));
        let m = choose|m: int| 0 <= m < t.len() && t[m] == r[i];
        if m < w.len() {
            assert(t[m] == w[m]);
        } else {
            assert(r[i] == e);
        }
    }
    if w.len() < KEEP_PER_USER {
        assert(r.contains(e));
        let k = choose|k: int| 0 <= k < r.len() && r[k] == e;
        assert(kept == r);
        assert(f[k] == stored_of(e));
    }
}

/// The verdict after a write, read from the board as it then stands.
pub fn recorded(board_after: &Board, name: &str) -> (v: Verdict)
    ensures
        name_pos(board_after@, spec_sanitize(name@)) < board_after@.len() <= usize::MAX,
        ({
            let k = name_pos(board_after@, spec_sanitize(name@));
            v == Verdict::Recorded { rank: if k >= 0 { (k + 1) as usize } else { usize::MAX } }
        }),
{
    match board_after.rank_of(name) {
        Some(r) => Verdict::Recorded { rank: r },
        None => Verdict::Recorded { rank: usize::MAX },
    }
}


// ─────────────────────────────────────────────────────────────────────────
// Where the board lives
// ─────────────────────────────────────────────────────────────────────────

/// `std::path::PathBuf`, carried through as an opaque value.
#[verifier::external_type_specification]
#[verifier::external_body]
pub struct ExPathBuf(std::path::PathBuf);

/// Where the board is kept.
#[derive(Debug)]
pub struct Store {
    /// The shared directory; `None` means no shared board, only one's own file.
    shared: Option<std::path::PathBuf>,
    /// One's own file.
    own: std::path::PathBuf,
    /// One's own account: records written are tagged for it, and one's own
    /// file is verified against it.
    uid: u32,
}

impl Store {
    /// The shared directory, if there is one.
    pub closed spec fn spec_shared(&self) -> Option<std::path::PathBuf> {
        self.shared
    }

    /// One's own file.
    pub closed spec fn spec_own(&self) -> std::path::PathBuf {
        self.own
    }

    /// One's own account.
    pub closed spec fn spec_uid(&self) -> u32 {
        self.uid
    }

    /// A store at the given places.
    pub fn with_paths(shared: Option<std::path::PathBuf>, own: std::path::PathBuf, uid: u32) -> (s: Store)
        ensures
            s.spec_shared() == shared,
            s.spec_own() == own,
            s.spec_uid() == uid,
    {
        Store { shared, own, uid }
    }

    /// Whether there is a shared board (without one, the board holds only
    /// one's own records).
    pub fn is_shared(&self) -> (r: bool)
        ensures
            r == self.spec_shared() is Some,
    {
        self.shared.is_some()
    }

    /// Where the board is kept, for the screen: the shared directory if
    /// there is one, else one's own file.
    pub fn location(&self) -> (r: &std::path::PathBuf)
        ensures
            *r == match self.spec_shared() {
                Some(d) => d,
                None => self.spec_own(),
            },
    {
        match &self.shared {
            Some(d) => d,
            None => &self.own,
        }
    }

    /// One's own file.
    pub fn own_path(&self) -> (r: &std::path::PathBuf)
        ensures
            *r == self.spec_own(),
    {
        &self.own
    }

    /// One's own account.
    pub fn uid(&self) -> (r: u32)
        ensures
            r == self.spec_uid(),
    {
        self.uid
    }
}

} // verus!
