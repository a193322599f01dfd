use vstd::prelude::*;

verus! {

/// A terminal colour, one value for each colour the terminal backend knows.
#[derive(Clone, Copy, Debug, PartialEq, Eq, Structural)]
pub enum Color {
    Reset,
    Black,
    Red,
    Green,
    Yellow,
    Blue,
    Magenta,
    Cyan,
    Gray,
    DarkGray,
    LightRed,
    LightGreen,
    LightYellow,
    LightBlue,
    LightMagenta,
    LightCyan,
    White,
    Rgb(u8, u8, u8),
    Indexed(u8),
}

/// The colours used to draw panel titles, the selected file and directories.
#[derive(Clone, Copy, Debug, PartialEq, Eq, Structural)]
pub struct Config {
    pub title_color: Color,
    pub selected_file_color: Color,
    pub directory_color: Color,
}

impl Config {
    /// Titles magenta, the selected file green, directories blue.
    pub fn default() -> (config: Self)
        ensures
            config.title_color == Color::Magenta,
            config.selected_file_color == Color::Green,
            config.directory_color == Color::Blue,
    {
        Config {
            title_color: Color::Magenta,
            selected_file_color: Color::Green,
            directory_color: Color::Blue,
        }
    }
}

} // verus!
