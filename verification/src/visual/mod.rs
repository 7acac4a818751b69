//! Visual identity: patterns, the pixel font, the logo, the mascots and the
//! decorative motifs.
//!
//! One rule holds for all of it: **it never wins over the data**. Everything
//! hangs off a [`Decoration`] level and steps aside when the screen is small;
//! the one exception is [`pattern`], which encodes information rather than
//! decorating.

pub mod glyph;
pub mod logo;
pub mod mascot;
pub mod motif;
pub mod pattern;
pub mod peek;
pub mod slot;
pub mod watermark;

use vstd::prelude::*;
use crate::chars::str_eq;
use crate::layout::Rect;

verus! {

/// How much decoration the screen can afford, from none to full.
#[derive(Clone, Copy, Debug, PartialEq, Eq, PartialOrd, Ord)]
pub enum Decoration {
    /// No decoration: information first.
    Nothing,
    /// Only the most compact identity: a text logo, chips.
    Minimal,
    /// A small logo, a small mascot, section motifs.
    Standard,
    /// The pixel logo and the full mascot card.
    Full,
}

/// The level's place in the order `None < Minimal < Standard < Full`.
pub open spec fn level(d: Decoration) -> int {
    match d {
        Decoration::Nothing => 0,
        Decoration::Minimal => 1,
        Decoration::Standard => 2,
        Decoration::Full => 3,
    }
}

/// The level the terminal size alone allows.
pub open spec fn level_by_size(area: Rect) -> Decoration {
    if area.width < 90 || area.height < 22 {
        Decoration::Nothing
    } else if area.width < 120 || area.height < 30 {
        Decoration::Minimal
    } else if area.width < 160 || area.height < 40 {
        Decoration::Standard
    } else {
        Decoration::Full
    }
}

impl Decoration {
    /// The level for a terminal size and the user's setting: `off` is none;
    /// `full` is full unless the terminal is too small for any decoration;
    /// anything else follows the size.
    pub fn resolve(setting: &str, area: Rect) -> (d: Decoration)
        ensures
            d == if setting@ == "off"@ {
                Decoration::Nothing
            } else if setting@ == "full"@ {
                if level_by_size(area) == Decoration::Nothing { Decoration::Nothing } else { Decoration::Full }
            } else {
                level_by_size(area)
            },
    {
        let by_size = if area.width < 90 || area.height < 22 {
            Decoration::Nothing
        } else if area.width < 120 || area.height < 30 {
            Decoration::Minimal
        } else if area.width < 160 || area.height < 40 {
            Decoration::Standard
        } else {
            Decoration::Full
        };
        if str_eq(setting, "off") {
            Decoration::Nothing
        } else if str_eq(setting, "full") {
            match by_size {
                Decoration::Nothing => Decoration::Nothing,
                _ => Decoration::Full,
            }
        } else {
            by_size
        }
    }

    /// Whether this level is at least `other`.
    pub fn at_least(self, other: Decoration) -> (r: bool)
        ensures
            r == (level(self) >= level(other)),
    {
        rank(self) >= rank(other)
    }
}

fn rank(d: Decoration) -> (r: u8)
    ensures
        r == level(d),
{
    match d {
        Decoration::Nothing => 0,
        Decoration::Minimal => 1,
        Decoration::Standard => 2,
        Decoration::Full => 3,
    }
}

/// How tightly panels are packed.
#[derive(Clone, Copy, Debug, PartialEq, Eq)]
pub enum Density {
    Comfortable,
    Compact,
}

impl Density {
    /// The packing for a setting and a terminal size: an explicit setting
    /// wins, otherwise comfortable needs at least 110×34.
    pub fn resolve(setting: &str, area: Rect) -> (d: Density)
        ensures
            d == if setting@ == "comfortable"@ {
                Density::Comfortable
            } else if setting@ == "compact"@ {
                Density::Compact
            } else if area.height >= 34 && area.width >= 110 {
                Density::Comfortable
            } else {
                Density::Compact
            },
    {
        if str_eq(setting, "comfortable") {
            Density::Comfortable
        } else if str_eq(setting, "compact") {
            Density::Compact
        } else if area.height >= 34 && area.width >= 110 {
            Density::Comfortable
        } else {
            Density::Compact
        }
    }

    /// Blank rows between panels.
    pub fn gap(self) -> (r: u16)
        ensures
            r == match self {
                Density::Comfortable => 1u16,
                Density::Compact => 0u16,
            },
    {
        match self {
            Density::Comfortable => 1,
            Density::Compact => 0,
        }
    }
}

} // verus!
