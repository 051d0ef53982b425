//! A log file held in memory, shown in a colour picked at random.
use vstd::prelude::*;

use crate::style::{Color, random_color_number};

verus! {

/// A log file: its name, its text and the colour its lines are marked with.
#[derive(Debug, Clone)]
pub struct LogFile {
    pub name: String,
    pub contents: String,
    pub color: Color,
}

impl LogFile {
    /// A file with a random colour `0x00RRGGBB` between 255 and `0xFFFFFF`.
    pub fn new_with_random_color(name: String, contents: String) -> (f: LogFile)
        ensures
            f.name@ == name@,
            f.contents@ == contents@,
            exists|u: u32| 255 <= u <= 0x00FF_FFFF && f.color == Color::spec_from_u32(u),
    {
        let u = random_color_number();
        let color = Color::from_u32(u);
        LogFile { name, contents, color }
    }
}

} // verus!
