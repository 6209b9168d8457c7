//! The named palette and the ANSI escape sequences of each color.
use vstd::prelude::*;
use crate::text::{chars_of, dec, push_dec};

verus! {

/// A terminal color.
#[derive(Debug, Copy, Clone, PartialEq)]
pub enum Color {
    Red,
    Green,
    Yellow,
    Blue,
    Magenta,
    Cyan,
    White,
    Black,
    BrightRed,
    BrightGreen,
    BrightYellow,
    BrightBlue,
    BrightMagenta,
    BrightCyan,
    BrightWhite,
    BrightBlack,
    Orange,
    Pink,
    Teal,
    Violet,
    Indigo,
    Lime,
    Turquoise,
    Coral,
    Crimson,
    Mint,
    Gold,
    Silver,
    Bronze,
    LightGray,
    DarkGray,
    SlateGray,
    Charcoal,
    Transparent,
    Rgb(u8, u8, u8),
    Rgba(u8, u8, u8, u8),
    Hex(&'static str),
    Indexed(u8),
    Gray(u8),
}

/// The SGR parameter of a color of the sixteen-color set (foreground; the
/// background one is ten more).
pub open spec fn basic_code(c: Color) -> Option<nat> {
    match c {
        Color::Black => Some(30),
        Color::Red => Some(31),
        Color::Green => Some(32),
        Color::Yellow => Some(33),
        Color::Blue => Some(34),
        Color::Magenta => Some(35),
        Color::Cyan => Some(36),
        Color::White => Some(37),
        Color::Transparent => Some(39),
        Color::BrightBlack => Some(90),
        Color::BrightRed => Some(91),
        Color::BrightGreen => Some(92),
        Color::BrightYellow => Some(93),
        Color::BrightBlue => Some(94),
        Color::BrightMagenta => Some(95),
        Color::BrightCyan => Some(96),
        Color::BrightWhite => Some(97),
        _ => None,
    }
}

/// The 256-color palette index of a named or indexed color.
pub open spec fn palette_index(c: Color) -> Option<nat> {
    match c {
        Color::Orange => Some(208),
        Color::Pink => Some(213),
        Color::Teal => Some(37),
        Color::Violet => Some(177),
        Color::Indigo => Some(54),
        Color::Lime => Some(154),
        Color::Turquoise => Some(80),
        Color::Coral => Some(203),
        Color::Crimson => Some(161),
        Color::Mint => Some(121),
        Color::Gold => Some(220),
        Color::Silver => Some(250),
        Color::Bronze => Some(136),
        Color::LightGray => Some(250),
        Color::DarkGray => Some(238),
        Color::SlateGray => Some(241),
        Color::Charcoal => Some(232),
        Color::Indexed(n) => Some(n as nat),
        Color::Gray(g) => Some(232 + if g <= 23 { g as nat } else { 23 }),
        _ => None,
    }
}

pub open spec fn esc() -> Seq<char> {
    seq!['\x1b', '[']
}

/// `ESC [ n m`
pub open spec fn sgr(n: nat) -> Seq<char> {
    esc() + dec(n) + seq!['m']
}

/// `ESC [ layer ; 5 ; index m`
pub open spec fn sgr_palette(layer: nat, index: nat) -> Seq<char> {
    esc() + dec(layer) + seq![';', '5', ';'] + dec(index) + seq!['m']
}

/// `ESC [ layer ; 2 ; r ; g ; b m`
pub open spec fn sgr_rgb(layer: nat, r: nat, g: nat, b: nat) -> Seq<char> {
    esc() + dec(layer) + seq![';', '2', ';'] + dec(r) + seq![';'] + dec(g) + seq![';'] + dec(b)
        + seq!['m']
}

/// The value of a hexadecimal digit, in either case.
pub open spec fn hex_digit(c: char) -> Option<nat> {
    if '0' <= c <= '9' {
        Some((c as nat - '0' as nat) as nat)
    } else if 'a' <= c <= 'f' {
        Some((c as nat - 'a' as nat + 10) as nat)
    } else if 'A' <= c <= 'F' {
        Some((c as nat - 'A' as nat + 10) as nat)
    } else {
        None
    }
}

/// A byte read from two characters in base 16, as `u8::from_str_radix` reads
/// them: two digits, or a `+` sign and one digit.
pub open spec fn hex_pair(a: char, b: char) -> Option<nat> {
    if a == '+' {
        hex_digit(b)
    } else {
        match (hex_digit(a), hex_digit(b)) {
            (Some(x), Some(y)) => Some(16 * x + y),
            _ => None,
        }
    }
}

/// The channels of `#rrggbb` or `#rrggbbaa` (the alpha pair must read too).
pub open spec fn hex_channels(h: Seq<char>) -> Option<(nat, nat, nat)> {
    if h.len() == 7 || h.len() == 9 {
        match (hex_pair(h[1], h[2]), hex_pair(h[3], h[4]), hex_pair(h[5], h[6])) {
            (Some(r), Some(g), Some(b)) => if h.len() == 9 && hex_pair(h[7], h[8]) is None {
                None
            } else {
                Some((r, g, b))
            },
            _ => None,
        }
    } else {
        None
    }
}

/// The channel read at `i` of a bare `rrggbb`, zero where it does not read.
pub open spec fn hex_or_zero(h: Seq<char>, i: int) -> nat {
    match hex_pair(h[i], h[i + 1]) {
        Some(v) => v,
        None => 0,
    }
}

/// The text-color sequence of a hex color text.
pub open spec fn hex_fg(h: Seq<char>) -> Seq<char> {
    match hex_channels(h) {
        Some((r, g, b)) => sgr_rgb(38, r, g, b),
        None => sgr(39),
    }
}

/// The escape sequence that sets `c` as the text color.
pub open spec fn fg(c: Color) -> Seq<char> {
    match c {
        Color::Rgb(r, g, b) => sgr_rgb(38, r as nat, g as nat, b as nat),
        Color::Rgba(r, g, b, _) => sgr_rgb(38, r as nat, g as nat, b as nat),
        Color::Hex(h) => hex_fg(h@),
        _ => match palette_index(c) {
            Some(i) => sgr_palette(38, i),
            None => sgr(basic_code(c)->Some_0),
        },
    }
}

/// The escape sequence that sets `c` as the background color.
pub open spec fn bg(c: Color) -> Seq<char> {
    match c {
        Color::Rgb(r, g, b) => sgr_rgb(48, r as nat, g as nat, b as nat),
        Color::Rgba(r, g, b, _) => sgr_rgb(48, r as nat, g as nat, b as nat),
        Color::Hex(h) => if h@.len() == 6 {
            sgr_rgb(48, hex_or_zero(h@, 0), hex_or_zero(h@, 2), hex_or_zero(h@, 4))
        } else {
            sgr(49)
        },
        _ => match palette_index(c) {
            Some(i) => sgr_palette(48, i),
            None => sgr(basic_code(c)->Some_0 + 10),
        },
    }
}

pub open spec fn reset_seq() -> Seq<char> {
    sgr(0)
}

pub open spec fn bold_seq() -> Seq<char> {
    sgr(1)
}

pub open spec fn italic_seq() -> Seq<char> {
    sgr(3)
}

pub open spec fn underline_seq() -> Seq<char> {
    sgr(4)
}

pub open spec fn strikethrough_seq() -> Seq<char> {
    sgr(9)
}

pub open spec fn normal_intensity_seq() -> Seq<char> {
    sgr(22)
}

proof fn lemma_basic_or_palette(c: Color)
    requires
        !(c is Rgb || c is Rgba || c is Hex),
    ensures
        palette_index(c) is Some || basic_code(c) is Some,
{
}

fn hex_digit_exec(c: char) -> (r: Option<u64>)
    ensures
        r matches Some(v) ==> hex_digit(c) == Some(v as nat),
        r is None ==> hex_digit(c) is None,
{
    if '0' <= c && c <= '9' {
        Some((c as u64) - ('0' as u64))
    } else if 'a' <= c && c <= 'f' {
        Some((c as u64) - ('a' as u64) + 10)
    } else if 'A' <= c && c <= 'F' {
        Some((c as u64) - ('A' as u64) + 10)
    } else {
        None
    }
}

fn hex_pair_exec(a: char, b: char) -> (r: Option<u64>)
    ensures
        r matches Some(v) ==> hex_pair(a, b) == Some(v as nat),
        r is None ==> hex_pair(a, b) is None,
{
    if a == '+' {
        hex_digit_exec(b)
    } else {
        match (hex_digit_exec(a), hex_digit_exec(b)) {
            (Some(x), Some(y)) => Some(16 * x + y),
            _ => None,
        }
    }
}

/// Appends `ESC [ layer ; 2 ; r ; g ; b m`.
fn push_rgb(out: &mut String, layer: u64, r: u64, g: u64, b: u64)
    ensures
        final(out)@ == old(out)@ + sgr_rgb(layer as nat, r as nat, g as nat, b as nat),
{
    out.append("\x1b[");
    push_dec(out, layer);
    out.append(";2;");
    push_dec(out, r);
    out.append(";");
    push_dec(out, g);
    out.append(";");
    push_dec(out, b);
    out.append("m");
    proof {
        reveal_strlit("\x1b[");
        reveal_strlit(";2;");
        reveal_strlit(";");
        reveal_strlit("m");
    }
    assert(final(out)@ =~= old(out)@ + sgr_rgb(layer as nat, r as nat, g as nat, b as nat));
}

/// Appends `ESC [ layer ; 5 ; index m`.
fn push_palette(out: &mut String, layer: u64, index: u64)
    ensures
        final(out)@ == old(out)@ + sgr_palette(layer as nat, index as nat),
{
    out.append("\x1b[");
    push_dec(out, layer);
    out.append(";5;");
    push_dec(out, index);
    out.append("m");
    proof {
        reveal_strlit("\x1b[");
        reveal_strlit(";5;");
        reveal_strlit("m");
    }
    assert(final(out)@ =~= old(out)@ + sgr_palette(layer as nat, index as nat));
}

/// Appends `ESC [ n m`.
fn push_sgr(out: &mut String, n: u64)
    ensures
        final(out)@ == old(out)@ + sgr(n as nat),
{
    out.append("\x1b[");
    push_dec(out, n);
    out.append("m");
    proof {
        reveal_strlit("\x1b[");
        reveal_strlit("m");
    }
    assert(final(out)@ =~= old(out)@ + sgr(n as nat));
}

fn sgr_text(n: u64) -> (r: String)
    ensures
        r@ == sgr(n as nat),
{
    let mut s = String::new();
    push_sgr(&mut s, n);
    assert(s@ =~= sgr(n as nat));
    s
}

/// A text without its leading `#` characters.
pub open spec fn strip_hashes(s: Seq<char>) -> Seq<char>
    decreases s.len(),
{
    if s.len() > 0 && s[0] == '#' {
        strip_hashes(s.skip(1))
    } else {
        s
    }
}

/// The channels of a bare `rrggbb` (alpha 255) or `rrggbbaa`.
pub open spec fn hex_rgba(h: Seq<char>) -> Option<(nat, nat, nat, nat)> {
    match (hex_pair(h[0], h[1]), hex_pair(h[2], h[3]), hex_pair(h[4], h[5])) {
        (Some(r), Some(g), Some(b)) => if h.len() == 6 {
            Some((r, g, b, 255))
        } else {
            match hex_pair(h[6], h[7]) {
                Some(a) => Some((r, g, b, a)),
                None => None,
            }
        },
        _ => None,
    }
}

impl Default for Color {
    fn default() -> (r: Color)
        ensures
            r == Color::White,
    {
        Color::White
    }
}

impl Color {
    /// The sequence that ends all colors and styles.
    pub fn reset() -> (r: String)
        ensures
            r@ == reset_seq(),
    {
        sgr_text(0)
    }

    /// The sequence that starts bold text.
    pub fn bold() -> (r: String)
        ensures
            r@ == bold_seq(),
    {
        sgr_text(1)
    }

    /// The sequence that starts italic text.
    pub fn italic() -> (r: String)
        ensures
            r@ == italic_seq(),
    {
        sgr_text(3)
    }

    /// The sequence that starts underlined text.
    pub fn underline() -> (r: String)
        ensures
            r@ == underline_seq(),
    {
        sgr_text(4)
    }

    /// The sequence that starts struck-through text.
    pub fn strikethrough() -> (r: String)
        ensures
            r@ == strikethrough_seq(),
    {
        sgr_text(9)
    }

    /// The sequence that ends bold text.
    pub fn reset_style() -> (r: String)
        ensures
            r@ == normal_intensity_seq(),
    {
        sgr_text(22)
    }

    /// Reads `#rrggbb` or `#rrggbbaa` (any number of leading `#`, or none)
    /// as an RGBA color.
    pub fn from_hex(hex: &str) -> (r: Result<Color, String>)
        ensures
            ({
                let h = strip_hashes(hex@);
                if h.len() != 6 && h.len() != 8 {
                    r matches Err(m) && m@ == "Invalid hex format. Use #RRGGBB or #RRGGBBAA."@
                } else {
                    match hex_rgba(h) {
                        Some((r0, g0, b0, a0)) => r matches Ok(c) && c == Color::Rgba(
                            r0 as u8,
                            g0 as u8,
                            b0 as u8,
                            a0 as u8,
                        ),
                        None => r matches Err(m) && m@ == "Invalid hex"@,
                    }
                }
            }),
    {
        let c = chars_of(hex);
        let mut start: usize = 0;
        assert(c@.skip(0) =~= c@);
        while start < c.len() && c[start] == '#'
            invariant
                start <= c.len(),
                c@ == hex@,
                strip_hashes(hex@) == strip_hashes(c@.skip(start as int)),
            decreases c.len() - start,
        {
            assert(c@.skip(start as int).skip(1) =~= c@.skip(start + 1));
            start = start + 1;
        }
        let ghost h = c@.skip(start as int);
        let n = c.len() - start;
        if n != 6 && n != 8 {
            return Err(String::from_str("Invalid hex format. Use #RRGGBB or #RRGGBBAA."));
        }
        let r = hex_pair_exec(c[start], c[start + 1]);
        let g = hex_pair_exec(c[start + 2], c[start + 3]);
        let b = hex_pair_exec(c[start + 4], c[start + 5]);
        let a = if n == 8 {
            hex_pair_exec(c[start + 6], c[start + 7])
        } else {
            Some(255)
        };
        assert(h[0] == c@[start as int] && h[1] == c@[start + 1] && h[2] == c@[start + 2]);
        assert(h[3] == c@[start + 3] && h[4] == c@[start + 4] && h[5] == c@[start + 5]);
        assert(n == 8 ==> h[6] == c@[start + 6] && h[7] == c@[start + 7]);
        match (r, g, b, a) {
            (Some(r), Some(g), Some(b), Some(a)) => Ok(Color::Rgba(r as u8, g as u8, b as u8, a as u8)),
            _ => Err(String::from_str("Invalid hex")),
        }
    }

    fn basic_code_exec(&self) -> (r: Option<u64>)
        ensures
            r matches Some(v) ==> basic_code(*self) == Some(v as nat),
            r is None ==> basic_code(*self) is None,
    {
        match self {
            Color::Black => Some(30),
            Color::Red => Some(31),
            Color::Green => Some(32),
            Color::Yellow => Some(33),
            Color::Blue => Some(34),
            Color::Magenta => Some(35),
            Color::Cyan => Some(36),
            Color::White => Some(37),
            Color::Transparent => Some(39),
            Color::BrightBlack => Some(90),
            Color::BrightRed => Some(91),
            Color::BrightGreen => Some(92),
            Color::BrightYellow => Some(93),
            Color::BrightBlue => Some(94),
            Color::BrightMagenta => Some(95),
            Color::BrightCyan => Some(96),
            Color::BrightWhite => Some(97),
            _ => None,
        }
    }

    fn palette_index_exec(&self) -> (r: Option<u64>)
        ensures
            r matches Some(v) ==> palette_index(*self) == Some(v as nat),
            r is None ==> palette_index(*self) is None,
    {
        match self {
            Color::Orange => Some(208),
            Color::Pink => Some(213),
            Color::Teal => Some(37),
            Color::Violet => Some(177),
            Color::Indigo => Some(54),
            Color::Lime => Some(154),
            Color::Turquoise => Some(80),
            Color::Coral => Some(203),
            Color::Crimson => Some(161),
            Color::Mint => Some(121),
            Color::Gold => Some(220),
            Color::Silver => Some(250),
            Color::Bronze => Some(136),
            Color::LightGray => Some(250),
            Color::DarkGray => Some(238),
            Color::SlateGray => Some(241),
            Color::Charcoal => Some(232),
            Color::Indexed(n) => Some(*n as u64),
            Color::Gray(g) => Some(232 + if *g <= 23 { *g as u64 } else { 23 }),
            _ => None,
        }
    }

    /// The escape sequence that sets this color as the text color.
    pub fn to_ansi_code(&self) -> (r: String)
        ensures
            r@ == fg(*self),
    {
        let mut out = String::new();
        match self {
            Color::Rgb(r, g, b) => push_rgb(&mut out, 38, *r as u64, *g as u64, *b as u64),
            Color::Rgba(r, g, b, _) => push_rgb(&mut out, 38, *r as u64, *g as u64, *b as u64),
            Color::Hex(h) => {
                let c = chars_of(h);
                let mut done = false;
                if c.len() == 7 || c.len() == 9 {
                    let alpha_ok = c.len() == 7 || hex_pair_exec(c[7], c[8]).is_some();
                    match (hex_pair_exec(c[1], c[2]), hex_pair_exec(c[3], c[4]), hex_pair_exec(c[5], c[6])) {
                        (Some(r), Some(g), Some(b)) => if alpha_ok {
                            push_rgb(&mut out, 38, r, g, b);
                            done = true;
                        },
                        _ => {},
                    }
                }
                if !done {
                    push_sgr(&mut out, 39);
                }
            },
            _ => {
                proof { lemma_basic_or_palette(*self); }
                match self.palette_index_exec() {
                    Some(i) => push_palette(&mut out, 38, i),
                    None => push_sgr(&mut out, self.basic_code_exec().unwrap()),
                }
            },
        }
        assert(out@ =~= fg(*self));
        out
    }

    /// The escape sequence that sets this color as the background color.
    pub fn to_background_ansi_code(&self) -> (r: String)
        ensures
            r@ == bg(*self),
    {
        let mut out = String::new();
        match self {
            Color::Rgb(r, g, b) => push_rgb(&mut out, 48, *r as u64, *g as u64, *b as u64),
            Color::Rgba(r, g, b, _) => push_rgb(&mut out, 48, *r as u64, *g as u64, *b as u64),
            Color::Hex(h) => {
                let c = chars_of(h);
                if c.len() == 6 {
                    let r = hex_pair_exec(c[0], c[1]).unwrap_or(0);
                    let g = hex_pair_exec(c[2], c[3]).unwrap_or(0);
                    let b = hex_pair_exec(c[4], c[5]).unwrap_or(0);
                    push_rgb(&mut out, 48, r, g, b);
                } else {
                    push_sgr(&mut out, 49);
                }
            },
            _ => {
                proof { lemma_basic_or_palette(*self); }
                match self.palette_index_exec() {
                    Some(i) => push_palette(&mut out, 48, i),
                    None => push_sgr(&mut out, self.basic_code_exec().unwrap() + 10),
                }
            },
        }
        assert(out@ =~= bg(*self));
        out
    }
}

} // verus!
