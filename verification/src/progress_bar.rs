use vstd::prelude::*;

verus! {

/// The colours of the progress display.
#[derive(Debug, Clone, Copy)]
pub enum Color {
    Green,
    Yellow,
    Red,
    Reset,
}

/// The ANSI escape sequence of a colour.
pub open spec fn ansi_code(c: Color) -> Seq<char> {
    match c {
        Color::Green => "\x1b[32m"@,
        Color::Yellow => "\x1b[33m"@,
        Color::Red => "\x1b[31m"@,
        Color::Reset => "\x1b[0m"@,
    }
}

impl Color {
    /// The escape sequence that switches the terminal to this colour.
    pub fn code(&self) -> (s: &'static str)
        ensures
            s@ == ansi_code(*self),
    {
        match self {
            Color::Green => "\x1b[32m",
            Color::Yellow => "\x1b[33m",
            Color::Red => "\x1b[31m",
            Color::Reset => "\x1b[0m",
        }
    }
}

} // verus!
