//! The explain window: what a thing on screen is, what it reads on this
//! machine, where the value comes from, how it is computed, what to watch
//! for, the commands that show the same, and what to look at with it.
//!
//! Sections that do not apply are not drawn at all: there is never a
//! `Formula: n/a`.
//!
//! The heading names what the user framed, not the metric behind it. A row
//! reads `Logical CPUs` while its metric is the CPU utilisation; titling the
//! window with the metric would look like the wrong thing was picked.

use vstd::prelude::*;
use vstd::string::StringExecFns;
use crate::chars::{chars_of, owned, same_chars, spec_trim, str_width, string_of, trimmed};
use crate::format::{pad, pad_fill, spaces, spec_truncate, width};

verus! {

/// The window's title: the framed thing's label, trimmed, when there is one
/// that is not blank; the description's own title otherwise.
pub open spec fn heading_title(selected: Option<Seq<char>>, title: Seq<char>) -> Seq<char> {
    match selected {
        Some(s) => if spec_trim(s).len() > 0 { spec_trim(s) } else { title },
        None => title,
    }
}

/// The subtitle: the kind of thing and, when the title is the label rather
/// than the description's own title, that title too; then the metric's id
/// when there is one, all joined by ` · `.
pub open spec fn heading_subtitle(shown: Seq<char>, title: Seq<char>, kind: Seq<char>, metric_id: Option<Seq<char>>) -> Seq<char> {
    let base = if shown == title { kind } else { kind + " · "@ + title };
    match metric_id {
        Some(id) => base + " · "@ + id,
        None => base,
    }
}

/// The title and subtitle of the explain window for a description titled
/// `title`, of the given `kind`, about metric `metric_id` if any, opened on
/// the thing labelled `selected`.
pub fn explain_heading(selected: Option<&str>, title: &str, kind: &str, metric_id: Option<&str>) -> (r: (String, String))
    ensures
        r.0@ == heading_title(match selected { Some(s) => Some(s@), None => None }, title@),
        r.1@ == heading_subtitle(r.0@, title@, kind@, match metric_id { Some(m) => Some(m@), None => None }),
{
    let shown = match selected {
        Some(s) => {
            let t = trimmed(s);
            if t.len() > 0 { string_of(t.as_slice()) } else { owned(title) }
        },
        None => owned(title),
    };
    let sc = chars_of(shown.as_str());
    let same = same_chars(sc.as_slice(), title);
    let mut sub = owned(kind);
    if !same {
        sub.append(" · ");
        sub.append(title);
    }
    match metric_id {
        Some(id) => {
            sub.append(" · ");
            sub.append(id);
        },
        None => {},
    }
    (shown, sub)
}

/// How sure a value is.
#[derive(Clone, Copy, Debug, PartialEq, Eq)]
pub enum Certainty {
    /// Read as it is.
    Exact,
    /// Computed from exact readings.
    Derived,
    /// An estimate; always marked as one.
    Estimated,
    /// Could not be had here.
    Unavailable,
}

impl Certainty {
    pub open spec fn spec_tag(self) -> Option<Seq<char>> {
        match self {
            Certainty::Estimated => Some("estimated"@),
            Certainty::Unavailable => Some("unavailable"@),
            _ => None,
        }
    }

    /// The note shown after a value that is not simply read: estimates and
    /// values that could not be had are marked, exact and derived ones not.
    pub fn tag(&self) -> (r: Option<&'static str>)
        ensures
            match r {
                Some(t) => self.spec_tag() == Some(t@),
                None => self.spec_tag() is None,
            },
    {
        match self {
            Certainty::Estimated => Some("estimated"),
            Certainty::Unavailable => Some("unavailable"),
            _ => None,
        }
    }
}

/// One value on this machine.
pub struct Field {
    pub label: String,
    pub value: String,
    pub certainty: Certainty,
}

/// What the explain window says about one thing.
pub struct Describe {
    pub title: String,
    pub kind: String,
    pub metric_id: Option<String>,
    /// What it is, in a sentence or two.
    pub summary: String,
    /// Its values here and now.
    pub current: Vec<Field>,
    /// How it is computed.
    pub derivation: Option<String>,
    /// Where the numbers come from.
    pub source: Vec<String>,
    pub how_obtained: Option<String>,
    /// Things to know.
    pub pitfalls: Vec<String>,
    /// Commands that show the same.
    pub commands: Vec<String>,
    pub related: Vec<String>,
    /// What the user's permissions keep from view, if anything.
    pub permission_note: Option<String>,
}

/// How a piece of text is drawn.
#[derive(Clone, Copy, Debug, PartialEq, Eq)]
pub enum Look {
    /// Section titles: the accent colour, bold.
    Heading,
    Body,
    Dim,
    Faint,
    Warning,
    /// The warning colour, bold.
    WarningBold,
    /// Commands: the "ok" colour.
    Command,
    /// Marked estimates.
    Estimated,
    /// Related things: the network colour.
    Link,
}

/// Text in one look.
pub struct Piece {
    pub text: String,
    pub look: Look,
}

/// A titled section and its lines.
pub struct Section {
    pub title: &'static str,
    pub lines: Vec<Vec<Piece>>,
}

pub open spec fn line_view(l: Seq<Piece>) -> Seq<(Seq<char>, Look)> {
    Seq::new(l.len(), |i: int| (l[i].text@, l[i].look))
}

pub open spec fn lines_view(ls: Seq<Vec<Piece>>) -> Seq<Seq<(Seq<char>, Look)>> {
    Seq::new(ls.len(), |i: int| line_view(ls[i]@))
}

pub open spec fn section_views(s: Seq<Section>) -> Seq<(Seq<char>, Seq<Seq<(Seq<char>, Look)>>)> {
    Seq::new(s.len(), |i: int| (s[i].title@, lines_view(s[i].lines@)))
}

/// A section with these lines, or nothing when there are none.
pub open spec fn section_if(title: Seq<char>, lines: Seq<Seq<(Seq<char>, Look)>>) -> Seq<(Seq<char>, Seq<Seq<(Seq<char>, Look)>>)> {
    if lines.len() == 0 { Seq::empty() } else { seq![(title, lines)] }
}

/// One line of one piece, when there is text to show.
pub open spec fn single(t: Option<Seq<char>>, look: Look) -> Seq<Seq<(Seq<char>, Look)>> {
    match t {
        Some(x) => seq![seq![(x, look)]],
        None => Seq::empty(),
    }
}

pub open spec fn opt_view(t: Option<String>) -> Option<Seq<char>> {
    match t {
        Some(x) => Some(x@),
        None => None,
    }
}

/// One line per item: a marker, then the item.
pub open spec fn marked(items: Seq<String>, mark: Seq<char>, mark_look: Look, look: Look) -> Seq<Seq<(Seq<char>, Look)>> {
    Seq::new(items.len(), |i: int| seq![(mark, mark_look), (items[i]@, look)])
}

/// The widest label of the current values, in columns.
pub open spec fn widest(fields: Seq<Field>) -> nat
    decreases fields.len(),
{
    if fields.len() == 0 {
        0
    } else {
        let w = str_width(fields.last().label@) as nat;
        let rest = widest(fields.drop_last());
        if w > rest { w } else { rest }
    }
}

/// The labels of the current values are padded to the widest one, but not
/// past 28 columns.
pub open spec fn label_width(fields: Seq<Field>) -> nat {
    if widest(fields) < 28 { widest(fields) } else { 28 }
}

pub open spec fn value_look(c: Certainty) -> Look {
    match c {
        Certainty::Exact => Look::Body,
        Certainty::Derived => Look::Body,
        Certainty::Estimated => Look::Estimated,
        Certainty::Unavailable => Look::Faint,
    }
}

/// `  label  value`, the label padded to `w` columns, and `  (tag)` for a
/// value that is not simply read.
pub open spec fn field_line(f: Field, w: nat) -> Seq<(Seq<char>, Look)> {
    seq![
        ("  "@, Look::Dim),
        (spec_truncate(f.label@, w) + spaces(pad_fill(f.label@, w)), Look::Dim),
        ("  "@, Look::Dim),
        (f.value@, value_look(f.certainty)),
    ] + match f.certainty.spec_tag() {
        Some(t) => seq![("  ("@ + t + ")"@, Look::Estimated)],
        None => Seq::empty(),
    }
}

pub open spec fn current_lines(fields: Seq<Field>) -> Seq<Seq<(Seq<char>, Look)>> {
    Seq::new(fields.len(), |i: int| field_line(fields[i], label_width(fields)))
}

/// The related things on one line, separated by `  ·  `.
pub open spec fn related_pieces(rs: Seq<String>) -> Seq<(Seq<char>, Look)>
    decreases rs.len(),
{
    if rs.len() == 0 {
        Seq::empty()
    } else if rs.len() == 1 {
        seq![(rs[0]@, Look::Link)]
    } else {
        related_pieces(rs.drop_last()) + seq![("  ·  "@, Look::Dim), (rs.last()@, Look::Link)]
    }
}

/// The sections, in order; each only when it has something to show.
pub open spec fn spec_sections(c: Describe) -> Seq<(Seq<char>, Seq<Seq<(Seq<char>, Look)>>)> {
    section_if("What is this?"@, single(if c.summary@.len() > 0 { Some(c.summary@) } else { None }, Look::Body))
        + section_if("Current"@, current_lines(c.current@))
        + section_if("Formula"@, single(opt_view(c.derivation), Look::Body))
        + section_if("Source"@, marked(c.source@, "  "@, Look::Dim, Look::Dim))
        + section_if("How sysview got it"@, single(opt_view(c.how_obtained), Look::Dim))
        + section_if("Things to know"@, marked(c.pitfalls@, "  ! "@, Look::WarningBold, Look::Body))
        + section_if("Equivalent commands"@, marked(c.commands@, "  $ "@, Look::Dim, Look::Command))
        + section_if("Related"@, if c.related@.len() > 0 { seq![related_pieces(c.related@)] } else { Seq::empty() })
        + section_if("Permission"@, single(opt_view(c.permission_note), Look::Warning))
}

/// The lines drawn for these sections: each title, then its lines, with one
/// blank line between sections.
pub open spec fn flat_lines(secs: Seq<(Seq<char>, Seq<Seq<(Seq<char>, Look)>>)>) -> Seq<Seq<(Seq<char>, Look)>>
    decreases secs.len(),
{
    if secs.len() == 0 {
        Seq::empty()
    } else {
        flat_lines(secs.drop_last())
            + (if secs.len() > 1 { seq![Seq::<(Seq<char>, Look)>::empty()] } else { Seq::empty() })
            + seq![seq![(secs.last().0, Look::Heading)]]
            + secs.last().1
    }
}

fn piece(text: String, look: Look) -> (p: Piece)
    ensures
        p.text@ == text@,
        p.look == look,
{
    Piece { text, look }
}

fn add_section(out: &mut Vec<Section>, title: &'static str, lines: Vec<Vec<Piece>>)
    ensures
        section_views(final(out)@) == section_views(old(out)@) + section_if(title@, lines_view(lines@)),
{
    if lines.len() > 0 {
        out.push(Section { title, lines });
        assert(section_views(out@) =~= section_views(old(out)@) + section_if(title@, lines_view(lines@)));
    } else {
        assert(section_views(out@) =~= section_views(old(out)@) + section_if(title@, lines_view(lines@)));
    }
}

fn single_line(t: &str, look: Look) -> (r: Vec<Vec<Piece>>)
    ensures
        lines_view(r@) == single(Some(t@), look),
{
    let mut l: Vec<Piece> = Vec::new();
    l.push(piece(owned(t), look));
    let mut r: Vec<Vec<Piece>> = Vec::new();
    r.push(l);
    assert(line_view(r@[0]@) =~= seq![(t@, look)]);
    assert(lines_view(r@) =~= single(Some(t@), look));
    r
}

fn single_opt(t: &Option<String>, look: Look) -> (r: Vec<Vec<Piece>>)
    ensures
        lines_view(r@) == single(opt_view(*t), look),
{
    match t {
        Some(x) => single_line(x.as_str(), look),
        None => {
            let r: Vec<Vec<Piece>> = Vec::new();
            assert(lines_view(r@) =~= single(opt_view(*t), look));
            r
        },
    }
}

fn marked_lines(items: &Vec<String>, mark: &'static str, mark_look: Look, look: Look) -> (r: Vec<Vec<Piece>>)
    ensures
        lines_view(r@) == marked(items@, mark@, mark_look, look),
{
    let mut r: Vec<Vec<Piece>> = Vec::new();
    let mut i: usize = 0;
    while i < items.len()
        invariant
            i <= items@.len(),
            lines_view(r@) == marked(items@.take(i as int), mark@, mark_look, look),
        decreases items@.len() - i,
    {
        let mut l: Vec<Piece> = Vec::new();
        l.push(piece(owned(mark), mark_look));
        l.push(piece(owned(items[i].as_str()), look));
        assert(line_view(l@) =~= seq![(mark@, mark_look), (items@[i as int]@, look)]);
        let ghost prev = r@;
        r.push(l);
        proof {
            assert(lines_view(r@) =~= lines_view(prev).push(seq![(mark@, mark_look), (items@[i as int]@, look)]));
            assert(marked(items@.take(i as int + 1), mark@, mark_look, look)
                =~= marked(items@.take(i as int), mark@, mark_look, look).push(seq![(mark@, mark_look), (items@[i as int]@, look)]));
        }
        i = i + 1;
    }
    assert(items@.take(i as int) =~= items@);
    r
}

fn field_pieces(f: &Field, w: usize) -> (r: Vec<Piece>)
    ensures
        line_view(r@) == field_line(*f, w as nat),
{
    let mut l: Vec<Piece> = Vec::new();
    l.push(piece(owned("  "), Look::Dim));
    l.push(piece(pad(f.label.as_str(), w), Look::Dim));
    l.push(piece(owned("  "), Look::Dim));
    let look = match f.certainty {
        Certainty::Exact => Look::Body,
        Certainty::Derived => Look::Body,
        Certainty::Estimated => Look::Estimated,
        Certainty::Unavailable => Look::Faint,
    };
    l.push(piece(owned(f.value.as_str()), look));
    match f.certainty.tag() {
        Some(t) => {
            let mut note = owned("  (");
            note.append(t);
            note.append(")");
            l.push(piece(note, Look::Estimated));
        },
        None => {},
    }
    assert(line_view(l@) =~= field_line(*f, w as nat));
    l
}

fn current_section(fields: &Vec<Field>) -> (r: Vec<Vec<Piece>>)
    ensures
        lines_view(r@) == current_lines(fields@),
{
    let mut widest_seen: usize = 0;
    let mut i: usize = 0;
    while i < fields.len()
        invariant
            i <= fields@.len(),
            widest_seen == widest(fields@.take(i as int)),
        decreases fields@.len() - i,
    {
        let w = width(fields[i].label.as_str());
        proof {
            assert(fields@.take(i as int + 1).drop_last() =~= fields@.take(i as int));
        }
        if w > widest_seen {
            widest_seen = w;
        }
        i = i + 1;
    }
    assert(fields@.take(i as int) =~= fields@);
    let w = if widest_seen < 28 { widest_seen } else { 28 };
    let mut r: Vec<Vec<Piece>> = Vec::new();
    let mut k: usize = 0;
    while k < fields.len()
        invariant
            k <= fields@.len(),
            w == label_width(fields@),
            lines_view(r@) == Seq::new(k as nat, |j: int| field_line(fields@[j], label_width(fields@))),
        decreases fields@.len() - k,
    {
        let l = field_pieces(&fields[k], w);
        let ghost prev = r@;
        r.push(l);
        proof {
            assert(lines_view(r@) =~= lines_view(prev).push(field_line(fields@[k as int], label_width(fields@))));
            assert(Seq::new(k as nat + 1, |j: int| field_line(fields@[j], label_width(fields@)))
                =~= Seq::new(k as nat, |j: int| field_line(fields@[j], label_width(fields@))).push(field_line(fields@[k as int], label_width(fields@))));
        }
        k = k + 1;
    }
    assert(lines_view(r@) =~= current_lines(fields@));
    r
}

fn related_line(rs: &Vec<String>) -> (r: Vec<Piece>)
    ensures
        line_view(r@) == related_pieces(rs@),
{
    let mut l: Vec<Piece> = Vec::new();
    let mut i: usize = 0;
    while i < rs.len()
        invariant
            i <= rs@.len(),
            line_view(l@) == related_pieces(rs@.take(i as int)),
        decreases rs@.len() - i,
    {
        if i > 0 {
            l.push(piece(owned("  ·  "), Look::Dim));
        }
        l.push(piece(owned(rs[i].as_str()), Look::Link));
        proof {
            let next = rs@.take(i as int + 1);
            assert(next.drop_last() =~= rs@.take(i as int));
            assert(next.last() == rs@[i as int]);
            if i == 0 {
                assert(line_view(l@) =~= related_pieces(next));
            } else {
                assert(line_view(l@) =~= related_pieces(rs@.take(i as int)) + seq![("  ·  "@, Look::Dim), (rs@[i as int]@, Look::Link)]);
            }
        }
        i = i + 1;
    }
    assert(rs@.take(i as int) =~= rs@);
    l
}

/// The sections of the explain window for `c`, in order: What is this?,
/// Current, Formula, Source, How sysview got it, Things to know, Equivalent
/// commands, Related, Permission; a section with nothing to show is left
/// out entirely.
pub fn explain_sections(c: &Describe) -> (r: Vec<Section>)
    ensures
        section_views(r@) == spec_sections(*c),
{
    let mut out: Vec<Section> = Vec::new();
    let summary = if c.summary.unicode_len() > 0 { single_line(c.summary.as_str(), Look::Body) } else {
        let e: Vec<Vec<Piece>> = Vec::new();
        assert(lines_view(e@) =~= single(None, Look::Body));
        e
    };
    add_section(&mut out, "What is this?", summary);
    add_section(&mut out, "Current", current_section(&c.current));
    add_section(&mut out, "Formula", single_opt(&c.derivation, Look::Body));
    add_section(&mut out, "Source", marked_lines(&c.source, "  ", Look::Dim, Look::Dim));
    add_section(&mut out, "How sysview got it", single_opt(&c.how_obtained, Look::Dim));
    add_section(&mut out, "Things to know", marked_lines(&c.pitfalls, "  ! ", Look::WarningBold, Look::Body));
    add_section(&mut out, "Equivalent commands", marked_lines(&c.commands, "  $ ", Look::Dim, Look::Command));
    let related = if c.related.len() > 0 {
        let mut v: Vec<Vec<Piece>> = Vec::new();
        v.push(related_line(&c.related));
        assert(lines_view(v@) =~= seq![related_pieces(c.related@)]);
        v
    } else {
        let v: Vec<Vec<Piece>> = Vec::new();
        assert(lines_view(v@) =~= Seq::<Seq<(Seq<char>, Look)>>::empty());
        v
    };
    add_section(&mut out, "Related", related);
    add_section(&mut out, "Permission", single_opt(&c.permission_note, Look::Warning));
    assert(section_views(out@) =~= spec_sections(*c));
    out
}

/// The lines of the explain window for `c`: each section's title, then its
/// lines, with one blank line between sections.
pub fn compose(c: &Describe) -> (r: Vec<Vec<Piece>>)
    ensures
        lines_view(r@) == flat_lines(spec_sections(*c)),
{
    let mut secs = explain_sections(c);
    let ghost all = section_views(secs@);
    let mut out: Vec<Vec<Piece>> = Vec::new();
    let mut first = true;
    let ghost mut done: int = 0;
    assert(all.skip(0) =~= all);
    while secs.len() > 0
        invariant
            0 <= done <= all.len(),
            section_views(secs@) == all.skip(done),
            lines_view(out@) == flat_lines(all.take(done)),
            first <==> done == 0,
        decreases secs@.len(),
    {
        let ghost before = out@;
        let ghost old_secs = secs@;
        let sec = secs.remove(0);
        proof {
            assert(section_views(old_secs).len() > 0);
            assert(section_views(old_secs)[0] == all.skip(done)[0]);
            assert(all[done] == all.skip(done)[0]);
            assert(secs@ =~= old_secs.drop_first());
            assert forall|j: int| 0 <= j < secs@.len() implies section_views(secs@)[j] == all.skip(done + 1)[j] by {
                assert(secs@[j] == old_secs[j + 1]);
                assert(section_views(old_secs)[j + 1] == all.skip(done)[j + 1]);
            }
            assert(section_views(secs@) =~= all.skip(done + 1));
        }
        if !first {
            let blank: Vec<Piece> = Vec::new();
            assert(line_view(blank@) =~= Seq::<(Seq<char>, Look)>::empty());
            out.push(blank);
        }
        let ghost with_blank = out@;
        assert(lines_view(with_blank) =~= lines_view(before)
            + (if done > 0 { seq![Seq::<(Seq<char>, Look)>::empty()] } else { Seq::empty() }));
        let mut head: Vec<Piece> = Vec::new();
        head.push(piece(owned(sec.title), Look::Heading));
        assert(line_view(head@) =~= seq![(sec.title@, Look::Heading)]);
        out.push(head);
        let ghost mid = out@;
        let mut lines = sec.lines;
        let ghost moved = lines@;
        out.append(&mut lines);
        proof {
            let t = all.take(done + 1);
            assert(t.drop_last() =~= all.take(done));
            assert(t.last() == all[done]);
            assert(all[done] == (sec.title@, lines_view(moved)));
            assert(lines_view(mid) =~= lines_view(with_blank) + seq![seq![(sec.title@, Look::Heading)]]);
            assert(lines_view(out@) =~= lines_view(mid) + lines_view(moved));
            done = done + 1;
        }
        first = false;
    }
    assert(all.take(done) =~= all);
    out
}

} // verus!
