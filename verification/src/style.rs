//! Colours and styles of the text the viewer shows, as plain values that the
//! terminal front end turns into its own.
use rand::Rng;
use vstd::prelude::*;

verus! {

/// A terminal colour.
#[derive(Debug, Clone, Copy, PartialEq, Eq, Structural)]
pub enum Color {
    Reset,
    Black,
    Red,
    Green,
    Yellow,
    Blue,
    Magenta,
    Cyan,
    Gray,
    DarkGray,
    LightRed,
    LightGreen,
    LightYellow,
    LightBlue,
    LightMagenta,
    LightCyan,
    White,
    Rgb(u8, u8, u8),
    Indexed(u8),
}

impl Color {
    /// The colour `0x00RRGGBB` of a number: its three low bytes.
    pub open spec fn spec_from_u32(u: u32) -> Color {
        Color::Rgb(((u / 65536) % 256) as u8, ((u / 256) % 256) as u8, (u % 256) as u8)
    }

    /// The colour `0x00RRGGBB` of a number: its three low bytes.
    pub fn from_u32(u: u32) -> (c: Color)
        ensures
            c == Self::spec_from_u32(u),
    {
        Color::Rgb(((u / 65536) % 256) as u8, ((u / 256) % 256) as u8, (u % 256) as u8)
    }
}

/// The look of a piece of text: colours and the modifiers the viewer uses.
#[derive(Debug, Clone, Copy, PartialEq, Eq, Structural)]
pub struct Style {
    pub fg: Option<Color>,
    pub bg: Option<Color>,
    pub bold: bool,
    pub slow_blink: bool,
}

impl Style {
    /// No colour, no modifier.
    pub open spec fn spec_plain() -> Style {
        Style { fg: None, bg: None, bold: false, slow_blink: false }
    }

    /// No colour, no modifier.
    pub fn plain() -> (s: Style)
        ensures
            s == Self::spec_plain(),
    {
        Style { fg: None, bg: None, bold: false, slow_blink: false }
    }

    /// A foreground and a background colour.
    pub fn colors(fg: Color, bg: Color) -> (s: Style)
        ensures
            s == (Style { fg: Some(fg), bg: Some(bg), ..Self::spec_plain() }),
    {
        Style { fg: Some(fg), bg: Some(bg), bold: false, slow_blink: false }
    }

    /// A foreground colour.
    pub fn fg(fg: Color) -> (s: Style)
        ensures
            s == (Style { fg: Some(fg), ..Self::spec_plain() }),
    {
        Style { fg: Some(fg), bg: None, bold: false, slow_blink: false }
    }
}

/// A piece of text in one style.
#[derive(Debug)]
pub struct StyledText {
    pub content: String,
    pub style: Style,
}

impl View for StyledText {
    type V = (Seq<char>, Style);

    open spec fn view(&self) -> (Seq<char>, Style) {
        (self.content@, self.style)
    }
}

impl Style {
    /// The style with its foreground colour set to `c` (`Style::fg`).
    pub open spec fn with_fg(self, c: Color) -> Style {
        Style { fg: Some(c), ..self }
    }
}

} // verus!

verus! {

/// `rand::thread_rng().gen_range(255..=0x00FF_FFFF)`: a random number in that
/// inclusive range, as the crate documents for `gen_range`. Nothing else is
/// promised of it.
#[verifier::external_body]
pub(crate) fn random_color_number() -> (u: u32)
    ensures
        255 <= u <= 0x00FF_FFFF,
{
    rand::thread_rng().gen_range(255..=0x00FF_FFFFu32)
}

} // verus!

verus! {

/// What the bar at the bottom shows: an error, nothing, or a prompt with the
/// typed text and, for the command line, the completions on offer.
#[derive(Debug)]
pub enum BarText {
    Error(String),
    Empty,
    Prompt { text: String, completions: Vec<&'static str> },
}

/// What a [`BarText`] holds, as plain values.
pub enum BarTextView {
    Error(Seq<char>),
    Empty,
    Prompt(Seq<char>, Seq<Seq<char>>),
}

impl View for BarText {
    type V = BarTextView;

    open spec fn view(&self) -> BarTextView {
        match self {
            BarText::Error(e) => BarTextView::Error(e@),
            BarText::Empty => BarTextView::Empty,
            BarText::Prompt { text, completions } => BarTextView::Prompt(
                text@,
                completions@.map_values(|c: &str| c@),
            ),
        }
    }
}

/// How many lines the bar takes on screen: one per line of an error; for a
/// prompt, the lines of its text and one more for the completions, when there
/// are some.
pub open spec fn bar_line_count(b: BarTextView) -> nat {
    match b {
        BarTextView::Error(e) => crate::text::lines_of(e).len(),
        BarTextView::Empty => 0,
        BarTextView::Prompt(t, c) => crate::text::lines_of(t).len() + if c.len() > 0 {
            1nat
        } else {
            0nat
        },
    }
}

/// A copy of a list of names.
pub fn copy_names(v: &Vec<&'static str>) -> (r: Vec<&'static str>)
    ensures
        r@ == v@,
{
    let mut r: Vec<&'static str> = Vec::new();
    let mut i: usize = 0;
    while i < v.len()
        invariant
            i <= v.len(),
            r@ == v@.take(i as int),
        decreases v.len() - i,
    {
        r.push(v[i]);
        i = i + 1;
        assert(r@ =~= v@.take(i as int));
    }
    assert(v@.take(v.len() as int) =~= v@);
    r
}

impl BarText {
    /// How many lines the bar takes on screen (at most `usize::MAX`).
    pub fn line_count(&self) -> (n: usize)
        ensures
            n as nat == if bar_line_count(self@) <= usize::MAX {
                bar_line_count(self@)
            } else {
                usize::MAX as nat
            },
    {
        match self {
            BarText::Error(e) => {
                let lines = crate::text::str_lines(e.as_str());
                assert(lines@.map_values(|l: &str| l@).len() == lines@.len());
                lines.len()
            },
            BarText::Empty => 0,
            BarText::Prompt { text, completions } => {
                let lines = crate::text::str_lines(text.as_str());
                assert(lines@.map_values(|l: &str| l@).len() == lines@.len());
                let n = lines.len();
                assert(completions@.map_values(|c: &str| c@).len() == completions@.len());
                if completions.len() > 0 {
                    if n < usize::MAX {
                        n + 1
                    } else {
                        n
                    }
                } else {
                    n
                }
            },
        }
    }
}

} // verus!

verus! {

/// A number of at most 24 bits is read back from the colour made of it:
/// red, green and blue are its high, middle and low bytes.
pub proof fn lemma_color_bytes(u: u32)
    requires
        u <= 0x00FF_FFFF,
    ensures
        Color::spec_from_u32(u) matches Color::Rgb(r, g, b) && r * 65536 + g * 256 + b == u,
{
    assert(((u / 65536) % 256) * 65536 + ((u / 256) % 256) * 256 + u % 256 == u) by (nonlinear_arith)
        requires
            u <= 0x00FF_FFFF,
    ;
}

} // verus!
