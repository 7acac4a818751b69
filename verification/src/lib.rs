//! Verified core of sysview: the text-width rules, the shared scoreboard,
//! the layout arithmetic, focus navigation, themes, the help window, the
//! dinosaur game's field, the visual identity pieces and the widgets'
//! plans.

pub mod chars;
pub mod siphash;
pub mod scoreboard;
pub mod scorefile;
pub mod format;
pub mod layout;
pub mod ranking;
pub mod theme;
pub mod focus;
pub mod dino;
pub mod explain;
pub mod help;
pub mod sysinfo;
pub mod visual;
pub mod widgets;
pub mod wrap;
pub mod snapshot;
pub mod admin;
pub mod proclist;
pub mod mounts;
pub mod gpucard;
pub mod health;
pub mod storage;
pub mod report;
