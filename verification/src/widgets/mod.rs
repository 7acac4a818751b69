//! Widget logic: overlay hints, braille plotting, panel frames, waffle cells.

pub mod braille;
pub mod gauge;
pub mod modal;
pub mod panel;
pub mod viz;
