//! Cell colors, the color-name parser, and the color policy of a run.
//!
//! A color name is matched case-insensitively (ASCII case) against the eight
//! fixed color names and the token `random`.  An unrecognized name is not an
//! error: it silently falls back to the default color, green.

use vstd::prelude::*;

verus! {

/// A terminal foreground color a cell can be drawn in.
#[derive(Clone, Copy, Debug, PartialEq, Eq, Structural)]
pub enum Color {
    Red,
    Green,
    Blue,
    Yellow,
    Magenta,
    Cyan,
    White,
    Black,
}

/// How the color of each drawn cell is chosen for the whole run.
#[derive(Clone, Copy, Debug, PartialEq, Eq, Structural)]
pub enum ColorPolicy {
    /// Every cell is drawn in this one color.
    Fixed(Color),
    /// Each cell's color is drawn independently from `palette()`.
    Random,
}

/// The palette that `random` draws from: every color but black.
pub open spec fn palette() -> Seq<Color> {
    seq![
        Color::Red,
        Color::Green,
        Color::Blue,
        Color::Yellow,
        Color::Magenta,
        Color::Cyan,
        Color::White,
    ]
}

/// ASCII lower-casing of a single code point: `A`..`Z` move to `a`..`z`,
/// everything else is unchanged.
pub open spec fn lower_code(u: u32) -> u32 {
    if 65 <= u && u <= 90 {
        (u + 32) as u32
    } else {
        u
    }
}

/// Two character sequences are equal up to ASCII case.
pub open spec fn eq_ignore_ascii_case(s: Seq<char>, t: Seq<char>) -> bool {
    s.len() == t.len() && forall|i: int|
        0 <= i < s.len() ==> lower_code(#[trigger] s[i] as u32) == lower_code(t[i] as u32)
}

/// What `parse_color` returns for a given name: the matching fixed color, or
/// `None` both for the token `random` and for an unrecognized name.
pub open spec fn spec_parse_color(s: Seq<char>) -> Option<Color> {
    if eq_ignore_ascii_case(s, "red"@) {
        Some(Color::Red)
    } else if eq_ignore_ascii_case(s, "green"@) {
        Some(Color::Green)
    } else if eq_ignore_ascii_case(s, "blue"@) {
        Some(Color::Blue)
    } else if eq_ignore_ascii_case(s, "yellow"@) {
        Some(Color::Yellow)
    } else if eq_ignore_ascii_case(s, "magenta"@) {
        Some(Color::Magenta)
    } else if eq_ignore_ascii_case(s, "cyan"@) {
        Some(Color::Cyan)
    } else if eq_ignore_ascii_case(s, "white"@) {
        Some(Color::White)
    } else if eq_ignore_ascii_case(s, "black"@) {
        Some(Color::Black)
    } else {
        None
    }
}

/// The name selects random per-cell colors.
pub open spec fn spec_is_random_name(s: Seq<char>) -> bool {
    eq_ignore_ascii_case(s, "random"@)
}

/// The color policy a name configures: `random` (any case) selects random
/// per-cell colors, a recognized color name selects that fixed color, and any
/// other name falls back to the default fixed color, green.
pub open spec fn spec_color_policy(s: Seq<char>) -> ColorPolicy {
    if spec_is_random_name(s) {
        ColorPolicy::Random
    } else {
        match spec_parse_color(s) {
            Some(c) => ColorPolicy::Fixed(c),
            None => ColorPolicy::Fixed(Color::Green),
        }
    }
}

/// ASCII lower-casing of one character's code point.
fn lower_code_of(c: char) -> (r: u32)
    ensures
        r == lower_code(c as u32),
{
    let u = c as u32;
    if 65 <= u && u <= 90 {
        u + 32
    } else {
        u
    }
}

/// Compares two strings for equality up to ASCII case.
pub fn str_eq_ignore_case(s: &str, t: &str) -> (r: bool)
    ensures
        r == eq_ignore_ascii_case(s@, t@),
{
    let n = s.unicode_len();
    if n != t.unicode_len() {
        return false;
    }
    let mut i: usize = 0;
    while i < n
        invariant
            n == s@.len(),
            n == t@.len(),
            0 <= i <= n,
            forall|j: int| 0 <= j < i ==> lower_code(#[trigger] s@[j] as u32) == lower_code(t@[j] as u32),
        decreases n - i,
    {
        let a = s.get_char(i);
        let b = t.get_char(i);
        if lower_code_of(a) != lower_code_of(b) {
            return false;
        }
        i = i + 1;
    }
    true
}

/// Parses a color name, case-insensitively, into its fixed color.  Returns
/// `None` both for the token `random` and for an unrecognized name; the caller
/// tells the two apart (see `color_policy`).
pub fn parse_color(color_str: &str) -> (r: Option<Color>)
    ensures
        r == spec_parse_color(color_str@),
{
    if str_eq_ignore_case(color_str, "red") {
        Some(Color::Red)
    } else if str_eq_ignore_case(color_str, "green") {
        Some(Color::Green)
    } else if str_eq_ignore_case(color_str, "blue") {
        Some(Color::Blue)
    } else if str_eq_ignore_case(color_str, "yellow") {
        Some(Color::Yellow)
    } else if str_eq_ignore_case(color_str, "magenta") {
        Some(Color::Magenta)
    } else if str_eq_ignore_case(color_str, "cyan") {
        Some(Color::Cyan)
    } else if str_eq_ignore_case(color_str, "white") {
        Some(Color::White)
    } else if str_eq_ignore_case(color_str, "black") {
        Some(Color::Black)
    } else {
        None
    }
}

/// Decides the run's color policy from the configured name.
pub fn color_policy(color_str: &str) -> (r: ColorPolicy)
    ensures
        r == spec_color_policy(color_str@),
{
    if str_eq_ignore_case(color_str, "random") {
        ColorPolicy::Random
    } else {
        match parse_color(color_str) {
            Some(c) => ColorPolicy::Fixed(c),
            None => ColorPolicy::Fixed(Color::Green),
        }
    }
}

/// The palette color at a given index.
fn palette_color(i: usize) -> (c: Color)
    requires
        i < 7,
    ensures
        c == palette()[i as int],
        c != Color::Black,
{
    match i {
        0 => Color::Red,
        1 => Color::Green,
        2 => Color::Blue,
        3 => Color::Yellow,
        4 => Color::Magenta,
        5 => Color::Cyan,
        _ => Color::White,
    }
}

/// Draws one cell color independently and uniformly from the palette — so
/// never black.
pub fn get_random_color(rng: &mut rand::rngs::StdRng) -> (c: Color)
    ensures
        palette().contains(c),
        c != Color::Black,
{
    let i = crate::rng::random_index(rng, 7);
    let c = palette_color(i);
    proof {
        assert(0 <= i < palette().len() && palette()[i as int] == c);
    }
    c
}

/// An unrecognized color name — one that is neither `random` nor any of the
/// eight color names — always configures the default fixed color, green.
pub proof fn lemma_unrecognized_name_defaults_to_green(s: Seq<char>)
    requires
        !spec_is_random_name(s),
        spec_parse_color(s) is None,
    ensures
        spec_color_policy(s) == ColorPolicy::Fixed(Color::Green),
{
}

} // verus!

