//! The rain's settings: the color palette, the frame rate and the cap on the
//! number of drops, checked before any frame is drawn.
use vstd::prelude::*;
use std::str::FromStr;
use crate::escape::{fg_ansi, fg_seq};

verus! {

/// The colors the rain can be drawn in: the sixteen colors of the ANSI
/// palette.
#[derive(Debug, Clone, Copy, PartialEq, Eq, Structural)]
pub enum Color {
    Black,
    Blue,
    Cyan,
    Green,
    LightBlack,
    LightBlue,
    LightCyan,
    LightGreen,
    LightMagenta,
    LightRed,
    LightWhite,
    LightYellow,
    Magenta,
    Red,
    White,
    Yellow,
}

/// The color's entry in the ANSI palette.
pub open spec fn palette_index(c: Color) -> nat {
    match c {
        Color::Black => 0,
        Color::Red => 1,
        Color::Green => 2,
        Color::Yellow => 3,
        Color::Blue => 4,
        Color::Magenta => 5,
        Color::Cyan => 6,
        Color::White => 7,
        Color::LightBlack => 8,
        Color::LightRed => 9,
        Color::LightGreen => 10,
        Color::LightYellow => 11,
        Color::LightBlue => 12,
        Color::LightMagenta => 13,
        Color::LightCyan => 14,
        Color::LightWhite => 15,
    }
}

/// The character `c` with ASCII upper case mapped to lower case, as a code point.
pub open spec fn lower_code(c: char) -> u32 {
    if 'A' <= c <= 'Z' {
        (c as u32 + 32) as u32
    } else {
        c as u32
    }
}

/// `a` and `b` are equal but for the case of ASCII letters.
pub open spec fn same_ignoring_case(a: Seq<char>, b: Seq<char>) -> bool {
    &&& a.len() == b.len()
    &&& forall|i: int| 0 <= i < a.len() ==> lower_code(#[trigger] a[i]) == lower_code(b[i])
}

/// The color whose name is `s`, in any case of its ASCII letters.
pub open spec fn color_named(s: Seq<char>) -> Option<Color> {
    if same_ignoring_case(s, "Black"@) {
        Some(Color::Black)
    } else if same_ignoring_case(s, "Blue"@) {
        Some(Color::Blue)
    } else if same_ignoring_case(s, "Cyan"@) {
        Some(Color::Cyan)
    } else if same_ignoring_case(s, "Green"@) {
        Some(Color::Green)
    } else if same_ignoring_case(s, "LightBlack"@) {
        Some(Color::LightBlack)
    } else if same_ignoring_case(s, "LightBlue"@) {
        Some(Color::LightBlue)
    } else if same_ignoring_case(s, "LightCyan"@) {
        Some(Color::LightCyan)
    } else if same_ignoring_case(s, "LightGreen"@) {
        Some(Color::LightGreen)
    } else if same_ignoring_case(s, "LightMagenta"@) {
        Some(Color::LightMagenta)
    } else if same_ignoring_case(s, "LightRed"@) {
        Some(Color::LightRed)
    } else if same_ignoring_case(s, "LightWhite"@) {
        Some(Color::LightWhite)
    } else if same_ignoring_case(s, "LightYellow"@) {
        Some(Color::LightYellow)
    } else if same_ignoring_case(s, "Magenta"@) {
        Some(Color::Magenta)
    } else if same_ignoring_case(s, "Red"@) {
        Some(Color::Red)
    } else if same_ignoring_case(s, "White"@) {
        Some(Color::White)
    } else if same_ignoring_case(s, "Yellow"@) {
        Some(Color::Yellow)
    } else {
        None
    }
}

/// Whether `a` and `b` are equal but for the case of ASCII letters.
fn eq_ignoring_case(a: &str, b: &str) -> (r: bool)
    ensures
        r == same_ignoring_case(a@, b@),
{
    let n = a.unicode_len();
    if n != b.unicode_len() {
        return false;
    }
    let mut i: usize = 0;
    while i < n
        invariant
            n == a@.len(),
            n == b@.len(),
            0 <= i <= n,
            forall|k: int| 0 <= k < i ==> lower_code(#[trigger] a@[k]) == lower_code(b@[k]),
        decreases n - i,
    {
        let ca = a.get_char(i);
        let cb = b.get_char(i);
        let la: u32 = if 'A' <= ca && ca <= 'Z' {
            ca as u32 + 32
        } else {
            ca as u32
        };
        let lb: u32 = if 'A' <= cb && cb <= 'Z' {
            cb as u32 + 32
        } else {
            cb as u32
        };
        if la != lb {
            return false;
        }
        i = i + 1;
    }
    true
}

impl Color {
    /// The color named `s`, in any case; `None` for a name outside the palette.
    pub fn from_name(s: &str) -> (r: Option<Color>)
        ensures
            r == color_named(s@),
    {
        if eq_ignoring_case(s, "Black") {
            Some(Color::Black)
        } else if eq_ignoring_case(s, "Blue") {
            Some(Color::Blue)
        } else if eq_ignoring_case(s, "Cyan") {
            Some(Color::Cyan)
        } else if eq_ignoring_case(s, "Green") {
            Some(Color::Green)
        } else if eq_ignoring_case(s, "LightBlack") {
            Some(Color::LightBlack)
        } else if eq_ignoring_case(s, "LightBlue") {
            Some(Color::LightBlue)
        } else if eq_ignoring_case(s, "LightCyan") {
            Some(Color::LightCyan)
        } else if eq_ignoring_case(s, "LightGreen") {
            Some(Color::LightGreen)
        } else if eq_ignoring_case(s, "LightMagenta") {
            Some(Color::LightMagenta)
        } else if eq_ignoring_case(s, "LightRed") {
            Some(Color::LightRed)
        } else if eq_ignoring_case(s, "LightWhite") {
            Some(Color::LightWhite)
        } else if eq_ignoring_case(s, "LightYellow") {
            Some(Color::LightYellow)
        } else if eq_ignoring_case(s, "Magenta") {
            Some(Color::Magenta)
        } else if eq_ignoring_case(s, "Red") {
            Some(Color::Red)
        } else if eq_ignoring_case(s, "White") {
            Some(Color::White)
        } else if eq_ignoring_case(s, "Yellow") {
            Some(Color::Yellow)
        } else {
            None
        }
    }

    /// The color's entry in the ANSI palette.
    pub fn palette_index(&self) -> (r: u8)
        ensures
            r == palette_index(*self),
    {
        match self {
            Color::Black => 0,
            Color::Red => 1,
            Color::Green => 2,
            Color::Yellow => 3,
            Color::Blue => 4,
            Color::Magenta => 5,
            Color::Cyan => 6,
            Color::White => 7,
            Color::LightBlack => 8,
            Color::LightRed => 9,
            Color::LightGreen => 10,
            Color::LightYellow => 11,
            Color::LightBlue => 12,
            Color::LightMagenta => 13,
            Color::LightCyan => 14,
            Color::LightWhite => 15,
        }
    }

    /// The control sequence that sets the foreground to this color.
    pub fn to_color_str(&self) -> (r: String)
        ensures
            r@ == fg_seq(palette_index(*self)),
    {
        fg_ansi(self.palette_index())
    }
}

#[verifier::external_type_specification]
#[verifier::external_body]
pub struct ExParseIntError(std::num::ParseIntError);

/// Whether `c` is an ASCII decimal digit.
pub open spec fn is_digit(c: char) -> bool {
    '0' <= c <= '9'
}

/// The value of the decimal digits `s`.
pub open spec fn digits_value(s: Seq<char>) -> nat
    decreases s.len(),
{
    if s.len() == 0 {
        0
    } else {
        digits_value(s.drop_last()) * 10 + ((s.last() as u32 - '0' as u32) as nat)
    }
}

/// `s` without the leading `+`, if it has one.
pub open spec fn unsigned_digits(s: Seq<char>) -> Seq<char> {
    if s.len() > 0 && s[0] == '+' {
        s.skip(1)
    } else {
        s
    }
}

/// The number that `s` writes in decimal: an optional `+` and one or more
/// digits, with a value that fits in a `u32`.
pub open spec fn parsed_u32(s: Seq<char>) -> Option<u32> {
    let d = unsigned_digits(s);
    if d.len() > 0 && (forall|i: int| 0 <= i < d.len() ==> is_digit(#[trigger] d[i]))
        && digits_value(d) <= u32::MAX {
        Some(digits_value(d) as u32)
    } else {
        None
    }
}

/// Relies on `u32::from_str`, which accepts an optional `+` followed by one or
/// more ASCII digits whose value fits in a `u32`, and fails on anything else.
#[verifier::external_body]
fn parse_u32(s: &str) -> (r: Result<u32, std::num::ParseIntError>)
    ensures
        match r {
            Ok(v) => parsed_u32(s@) == Some(v),
            Err(_) => parsed_u32(s@) is None,
        },
{
    u32::from_str(s)
}

/// Why a setting was refused.
#[derive(Debug, Clone, Copy, PartialEq, Eq, Structural)]
pub enum ConfigError {
    /// A number was not written as an unsigned decimal that fits in 32 bits.
    InvalidNumber,
    /// The frame rate was zero.
    ZeroFps,
    /// The color name is not one of the palette's.
    UnknownColor,
    /// The cap on the number of drops was negative.
    NegativeMax,
}

/// The frame rate that `s` sets.
pub open spec fn fps_of(s: Seq<char>) -> Result<u32, ConfigError> {
    match parsed_u32(s) {
        None => Err(ConfigError::InvalidNumber),
        Some(n) => if n == 0 {
            Err(ConfigError::ZeroFps)
        } else {
            Ok(n)
        },
    }
}

/// Reads a frame rate: a positive decimal number.
pub fn parse_fps(src: &str) -> (r: Result<u32, ConfigError>)
    ensures
        r == fps_of(src@),
{
    match parse_u32(src) {
        Err(_) => Err(ConfigError::InvalidNumber),
        Ok(res) => if res > 0 {
            Ok(res)
        } else {
            Err(ConfigError::ZeroFps)
        },
    }
}

/// The checked settings of the rain.
#[derive(Debug, Clone, Copy, PartialEq, Eq, Structural)]
pub struct Config {
    /// The color every glyph is drawn in.
    pub color: Color,
    /// The most drops alive at once.
    pub max: usize,
    /// Frames per second, at least one.
    pub fps: u32,
}

/// The configuration that a color name, a cap and a frame rate give, or the
/// first of them that is refused.
pub open spec fn config_of(color: Seq<char>, max: int, fps: Seq<char>) -> Result<Config, ConfigError> {
    match color_named(color) {
        None => Err(ConfigError::UnknownColor),
        Some(c) => if max < 0 {
            Err(ConfigError::NegativeMax)
        } else {
            match fps_of(fps) {
                Err(e) => Err(e),
                Ok(f) => Ok(Config { color: c, max: max as usize, fps: f }),
            }
        },
    }
}

/// Checks the settings: the color must be in the palette (in any case), the
/// cap must not be negative, and the frame rate must be a positive number.
pub fn configure(color: &str, max: i32, fps: &str) -> (r: Result<Config, ConfigError>)
    ensures
        r == config_of(color@, max as int, fps@),
{
    let c = match Color::from_name(color) {
        None => return Err(ConfigError::UnknownColor),
        Some(c) => c,
    };
    if max < 0 {
        return Err(ConfigError::NegativeMax);
    }
    match parse_fps(fps) {
        Err(e) => Err(e),
        Ok(f) => Ok(Config { color: c, max: max as usize, fps: f }),
    }
}

/// Names equal but for case match the same palette names.
proof fn lemma_same_ignoring_case_matches(a: Seq<char>, b: Seq<char>, name: Seq<char>)
    requires
        same_ignoring_case(a, b),
    ensures
        same_ignoring_case(a, name) == same_ignoring_case(b, name),
{
    if same_ignoring_case(a, name) {
        assert forall|i: int| 0 <= i < b.len() implies lower_code(#[trigger] b[i]) == lower_code(
            name[i],
        ) by {
            assert(lower_code(a[i]) == lower_code(b[i]));
        }
    }
    if same_ignoring_case(b, name) {
        assert forall|i: int| 0 <= i < a.len() implies lower_code(#[trigger] a[i]) == lower_code(
            name[i],
        ) by {
            assert(lower_code(a[i]) == lower_code(b[i]));
        }
    }
}

/// Reading the same settings twice gives the same configuration, or the same
/// error; the color name may even differ in the case of its letters.
pub proof fn lemma_configure_repeatable(c1: Seq<char>, c2: Seq<char>, max: int, fps: Seq<char>)
    requires
        same_ignoring_case(c1, c2),
    ensures
        config_of(c1, max, fps) == config_of(c2, max, fps),
{
    lemma_same_ignoring_case_matches(c1, c2, "Black"@);
    lemma_same_ignoring_case_matches(c1, c2, "Blue"@);
    lemma_same_ignoring_case_matches(c1, c2, "Cyan"@);
    lemma_same_ignoring_case_matches(c1, c2, "Green"@);
    lemma_same_ignoring_case_matches(c1, c2, "LightBlack"@);
    lemma_same_ignoring_case_matches(c1, c2, "LightBlue"@);
    lemma_same_ignoring_case_matches(c1, c2, "LightCyan"@);
    lemma_same_ignoring_case_matches(c1, c2, "LightGreen"@);
    lemma_same_ignoring_case_matches(c1, c2, "LightMagenta"@);
    lemma_same_ignoring_case_matches(c1, c2, "LightRed"@);
    lemma_same_ignoring_case_matches(c1, c2, "LightWhite"@);
    lemma_same_ignoring_case_matches(c1, c2, "LightYellow"@);
    lemma_same_ignoring_case_matches(c1, c2, "Magenta"@);
    lemma_same_ignoring_case_matches(c1, c2, "Red"@);
    lemma_same_ignoring_case_matches(c1, c2, "White"@);
    lemma_same_ignoring_case_matches(c1, c2, "Yellow"@);
}

} // verus!
