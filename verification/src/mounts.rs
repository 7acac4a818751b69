//! The filesystem table's plan: which columns it has at a width, what each
//! cell of a mount shows, and where the usage bar goes. Sizes and
//! percentages arrive formatted.

use vstd::prelude::*;
use vstd::string::StringExecFns;
use crate::chars::{chars_of, owned, push_char};

verus! {

/// The table is wide from 96 columns on: it then shows the device, the
/// file system type, the used bytes and the inodes as well.
pub open spec fn is_wide(width: int) -> bool {
    width >= 96
}

/// The columns at a width: title, width, right-aligned.
pub open spec fn spec_columns(wide: bool) -> Seq<(Seq<char>, u16, bool)> {
    if wide {
        seq![("MOUNT"@, 22u16, false), ("DEVICE"@, 12u16, false), ("TYPE"@, 7u16, false), ("SIZE"@, 10u16, true),
            ("USED"@, 10u16, true), ("FREE"@, 10u16, true), ("USE%"@, 20u16, false), ("INODE"@, 7u16, true)]
    } else {
        seq![("MOUNT"@, 18u16, false), ("SIZE"@, 9u16, true), ("FREE"@, 9u16, true), ("USE%"@, 18u16, false)]
    }
}

/// The table's columns for `width` columns of room.
pub fn columns(width: u16) -> (r: Vec<(&'static str, u16, bool)>)
    ensures
        Seq::new(r@.len(), |i: int| (r@[i].0@, r@[i].1, r@[i].2)) == spec_columns(is_wide(width as int)),
{
    let r = if width >= 96 {
        vec![("MOUNT", 22, false), ("DEVICE", 12, false), ("TYPE", 7, false), ("SIZE", 10, true),
            ("USED", 10, true), ("FREE", 10, true), ("USE%", 20, false), ("INODE", 7, true)]
    } else {
        vec![("MOUNT", 18, false), ("SIZE", 9, true), ("FREE", 9, true), ("USE%", 18, false)]
    };
    assert(Seq::new(r@.len(), |i: int| (r@[i].0@, r@[i].1, r@[i].2)) =~= spec_columns(is_wide(width as int)));
    r
}

/// A device path without its leading `/dev/` (every repetition of it, as
/// `trim_start_matches` removes them).
pub open spec fn spec_device_name(s: Seq<char>) -> Seq<char>
    decreases s.len(),
{
    if s.len() >= 5 && s.take(5) == "/dev/"@ { spec_device_name(s.skip(5)) } else { s }
}

/// The device column's text.
pub fn device_name(dev: &str) -> (r: String)
    ensures
        r@ == spec_device_name(dev@),
{
    proof {
        reveal_strlit("/dev/");
    }
    let cs = chars_of(dev);
    let mut i: usize = 0;
    assert(dev@.skip(0) =~= dev@);
    while cs.len() >= 5 && i <= cs.len() - 5 && cs[i] == '/' && cs[i + 1] == 'd' && cs[i + 2] == 'e' && cs[i + 3] == 'v' && cs[i + 4] == '/'
        invariant
            cs@ == dev@,
            i <= cs@.len(),
            spec_device_name(dev@) == spec_device_name(dev@.skip(i as int)),
        decreases cs@.len() - i,
    {
        proof {
            reveal_strlit("/dev/");
            let t = dev@.skip(i as int);
            assert(t.take(5) =~= "/dev/"@);
            assert(t.skip(5) =~= dev@.skip(i as int + 5));
        }
        i = i + 5;
    }
    proof {
        reveal_strlit("/dev/");
        let t = dev@.skip(i as int);
        if t.len() >= 5 && t.take(5) == "/dev/"@ {
            assert(t.take(5)[0] == '/' && t.take(5)[1] == 'd' && t.take(5)[2] == 'e' && t.take(5)[3] == 'v' && t.take(5)[4] == '/');
            assert(cs@[i as int] == t[0]);
            assert(cs@[i as int + 4] == t[4]);
        }
    }
    let start = i;
    let mut rest = String::new();
    let mut j: usize = start;
    while j < cs.len()
        invariant
            cs@ == dev@,
            start <= j <= cs@.len(),
            rest@ == cs@.subrange(start as int, j as int),
        decreases cs@.len() - j,
    {
        push_char(&mut rest, cs[j]);
        j = j + 1;
        assert(rest@ =~= cs@.subrange(start as int, j as int));
    }
    assert(rest@ =~= dev@.skip(start as int));
    rest
}

/// The file system type column's text: `[ext4]`.
pub fn fs_label(fs_type: &str) -> (r: String)
    ensures
        r@ == "["@ + fs_type@ + "]"@,
{
    let mut s = owned("[");
    s.append(fs_type);
    s.append("]");
    s
}

/// Where the usage bar of a row starts (from the table's left edge) and
/// how wide it is: after the columns before USE%, 12 cells wide in the wide
/// table and 10 in the narrow one; `None` when it and its percentage (7
/// more columns) do not fit.
pub open spec fn spec_bar_place(width: int) -> Option<(int, int)> {
    let (x, w) = if is_wide(width) { (77int, 12int) } else { (39int, 10int) };
    if x + w + 7 <= width { Some((x, w)) } else { None }
}

pub fn bar_place(width: u16) -> (r: Option<(u16, u16)>)
    ensures
        match r {
            Some((x, w)) => spec_bar_place(width as int) == Some((x as int, w as int)),
            None => spec_bar_place(width as int) is None,
        },
{
    let (x, w): (u16, u16) = if width >= 96 { (77, 12) } else { (39, 10) };
    if x as u32 + w as u32 + 7 <= width as u32 { Some((x, w)) } else { None }
}

} // verus!
