//! Wrapping text in escape sequences, and reading a color from its name.
use vstd::prelude::*;
use crate::colors::{
    Color, fg, bg, reset_seq, bold_seq, italic_seq, underline_seq, strikethrough_seq,
};
use crate::text::same_text;

verus! {

/// `code`, then the text, then the reset sequence.
pub open spec fn painted(code: Seq<char>, text: Seq<char>) -> Seq<char> {
    code + text + reset_seq()
}

fn paint(code: String, text: &str) -> (r: String)
    ensures
        r@ == painted(code@, text@),
{
    let mut out = code;
    out.append(text);
    let reset = Color::reset();
    out.append(reset.as_str());
    out
}

/// Styling of a piece of text with escape sequences.
pub trait TextStyle {
    /// The characters of the text.
    spec fn text_view(&self) -> Seq<char>;

    /// The text in `color`.
    fn colorize(&self, color: Color) -> (r: String)
        ensures
            r@ == painted(fg(color), self.text_view()),
    ;

    /// The text in `color` where the terminal shows colors (`supported`), the
    /// bare text elsewhere.
    fn term_colorize(&self, color: Color, supported: bool) -> (r: String)
        ensures
            r@ == if supported {
                painted(fg(color), self.text_view())
            } else {
                self.text_view()
            },
    ;

    /// The text on a `color` background.
    fn background(&self, color: Color) -> (r: String)
        ensures
            r@ == painted(bg(color), self.text_view()),
    ;

    fn bold(&self) -> (r: String)
        ensures
            r@ == painted(bold_seq(), self.text_view()),
    ;

    fn italic(&self) -> (r: String)
        ensures
            r@ == painted(italic_seq(), self.text_view()),
    ;

    fn underline(&self) -> (r: String)
        ensures
            r@ == painted(underline_seq(), self.text_view()),
    ;

    fn strikethrough(&self) -> (r: String)
        ensures
            r@ == painted(strikethrough_seq(), self.text_view()),
    ;
}

impl TextStyle for str {
    open spec fn text_view(&self) -> Seq<char> {
        self@
    }

    fn colorize(&self, color: Color) -> (r: String) {
        paint(color.to_ansi_code(), self)
    }

    fn term_colorize(&self, color: Color, supported: bool) -> (r: String) {
        if supported {
            paint(color.to_ansi_code(), self)
        } else {
            String::from_str(self)
        }
    }

    fn background(&self, color: Color) -> (r: String) {
        paint(color.to_background_ansi_code(), self)
    }

    fn bold(&self) -> (r: String) {
        paint(Color::bold(), self)
    }

    fn italic(&self) -> (r: String) {
        paint(Color::italic(), self)
    }

    fn underline(&self) -> (r: String) {
        paint(Color::underline(), self)
    }

    fn strikethrough(&self) -> (r: String) {
        paint(Color::strikethrough(), self)
    }
}

/// A value shown in a color.
pub struct ColoredText {
    pub content: String,
    pub color: Color,
}

impl ColoredText {
    /// The content in its color.
    pub fn render(&self) -> (r: String)
        ensures
            r@ == painted(fg(self.color), self.content@),
    {
        self.content.as_str().colorize(self.color)
    }
}

/// Whether `p` occurs in `s`.
pub open spec fn occurs_in(p: Seq<char>, s: Seq<char>) -> bool {
    exists|i: int| 0 <= i && i + p.len() <= s.len() && #[trigger] s.subrange(i, i + p.len()) == p
}

fn matches_at(s: &Vec<char>, p: &Vec<char>, i: usize) -> (r: bool)
    requires
        i + p.len() <= s.len(),
    ensures
        r == (s@.subrange(i as int, i + p.len()) == p@),
{
    let mut k: usize = 0;
    while k < p.len()
        invariant
            k <= p.len(),
            i + p.len() <= s.len(),
            forall|j: int| 0 <= j < k ==> s@[i + j] == p@[j],
        decreases p.len() - k,
    {
        if s[i + k] != p[k] {
            assert(s@.subrange(i as int, i + p.len())[k as int] != p@[k as int]);
            return false;
        }
        k = k + 1;
    }
    assert(s@.subrange(i as int, i + p.len()) =~= p@);
    true
}

/// Whether `p` occurs in `s`.
pub fn contains_text(s: &str, p: &str) -> (r: bool)
    ensures
        r == occurs_in(p@, s@),
{
    let sc = crate::text::chars_of(s);
    let pc = crate::text::chars_of(p);
    if pc.len() > sc.len() {
        return false;
    }
    let last = sc.len() - pc.len();
    let mut i: usize = 0;
    while i <= last
        invariant
            sc@ == s@,
            pc@ == p@,
            last == sc.len() - pc.len(),
            i <= last + 1,
            forall|j: int| 0 <= j < i ==> #[trigger] s@.subrange(j, j + p@.len()) != p@,
        decreases last + 1 - i,
    {
        if matches_at(&sc, &pc, i) {
            return true;
        }
        if i == last {
            return false;
        }
        i = i + 1;
    }
    false
}

/// Whether a terminal shows colors: its `TERM` (where set) names an xterm, a
/// screen or a vt100; without `TERM`, whether `COLORTERM` is set.
pub fn color_support(term: Option<&str>, colorterm_set: bool) -> (r: bool)
    ensures
        r == match term {
            Some(t) => occurs_in("xterm"@, t@) || occurs_in("screen"@, t@) || occurs_in("vt100"@, t@),
            None => colorterm_set,
        },
{
    match term {
        Some(t) => contains_text(t, "xterm") || contains_text(t, "screen") || contains_text(t, "vt100"),
        None => colorterm_set,
    }
}

/// A character with the Unicode `White_Space` property.
pub open spec fn unicode_space(c: char) -> bool {
    let u = c as u32;
    (0x9 <= u <= 0xD) || u == 0x20 || u == 0x85 || u == 0xA0 || u == 0x1680 || (0x2000 <= u
        <= 0x200A) || u == 0x2028 || u == 0x2029 || u == 0x202F || u == 0x205F || u == 0x3000
}

/// A text without its leading whitespace.
pub open spec fn strip_leading_space(s: Seq<char>) -> Seq<char>
    decreases s.len(),
{
    if s.len() > 0 && unicode_space(s[0]) {
        strip_leading_space(s.skip(1))
    } else {
        s
    }
}

/// A text without its trailing whitespace.
pub open spec fn strip_trailing_space(s: Seq<char>) -> Seq<char>
    decreases s.len(),
{
    if s.len() > 0 && unicode_space(s.last()) {
        strip_trailing_space(s.drop_last())
    } else {
        s
    }
}

/// A text without its leading and trailing whitespace.
pub open spec fn trim_of(s: Seq<char>) -> Seq<char> {
    strip_trailing_space(strip_leading_space(s))
}

/// What `str::to_lowercase` makes of a text.
pub uninterp spec fn lower_of(s: Seq<char>) -> Seq<char>;

/// Relies on `str::trim`: the text without leading and trailing characters
/// that have the Unicode `White_Space` property.
#[verifier::external_body]
fn trimmed<'a>(s: &'a str) -> (r: &'a str)
    ensures
        r@ == trim_of(s@),
{
    s.trim()
}

/// Relies on `str::to_lowercase`: the lowercase form of the text.
#[verifier::external_body]
fn lowercase(s: &str) -> (r: String)
    ensures
        r@ == lower_of(s@),
{
    s.to_lowercase()
}

/// Relies on `Box::leak`: the text, kept for the rest of the program.
#[verifier::external_body]
fn leak(s: String) -> (r: &'static str)
    ensures
        r@ == s@,
{
    Box::leak(s.into_boxed_str())
}

/// The color that a lowercase name stands for.
pub open spec fn named_color(s: Seq<char>) -> Option<Color> {
    if s == "red"@ { Some(Color::Red) }
    else if s == "green"@ { Some(Color::Green) }
    else if s == "yellow"@ { Some(Color::Yellow) }
    else if s == "blue"@ { Some(Color::Blue) }
    else if s == "magenta"@ { Some(Color::Magenta) }
    else if s == "cyan"@ { Some(Color::Cyan) }
    else if s == "white"@ { Some(Color::White) }
    else if s == "black"@ { Some(Color::Black) }
    else if s == "bright red"@ { Some(Color::BrightRed) }
    else if s == "bright green"@ { Some(Color::BrightGreen) }
    else if s == "bright yellow"@ { Some(Color::BrightYellow) }
    else if s == "bright blue"@ { Some(Color::BrightBlue) }
    else if s == "bright magenta"@ { Some(Color::BrightMagenta) }
    else if s == "bright cyan"@ { Some(Color::BrightCyan) }
    else if s == "bright white"@ { Some(Color::BrightWhite) }
    else if s == "bright black"@ { Some(Color::BrightBlack) }
    else if s == "orange"@ { Some(Color::Orange) }
    else if s == "pink"@ { Some(Color::Pink) }
    else if s == "teal"@ { Some(Color::Teal) }
    else if s == "violet"@ { Some(Color::Violet) }
    else if s == "indigo"@ { Some(Color::Indigo) }
    else if s == "lime"@ { Some(Color::Lime) }
    else if s == "turquoise"@ { Some(Color::Turquoise) }
    else if s == "coral"@ { Some(Color::Coral) }
    else if s == "crimson"@ { Some(Color::Crimson) }
    else if s == "mint"@ { Some(Color::Mint) }
    else if s == "gold"@ { Some(Color::Gold) }
    else if s == "silver"@ { Some(Color::Silver) }
    else if s == "bronze"@ { Some(Color::Bronze) }
    else if s == "light gray"@ { Some(Color::LightGray) }
    else if s == "dark gray"@ { Some(Color::DarkGray) }
    else if s == "slate gray"@ { Some(Color::SlateGray) }
    else if s == "charcoal"@ { Some(Color::Charcoal) }
    else if s == "transparent"@ { Some(Color::Transparent) }
    else { None }
}

/// The number of bytes that UTF-8 takes for a character.
pub open spec fn utf8_width(c: char) -> nat {
    if (c as u32) < 0x80 {
        1
    } else if (c as u32) < 0x800 {
        2
    } else if (c as u32) < 0x10000 {
        3
    } else {
        4
    }
}

/// The number of bytes that UTF-8 takes for a text.
pub open spec fn utf8_len(s: Seq<char>) -> nat
    decreases s.len(),
{
    if s.len() == 0 {
        0
    } else {
        utf8_len(s.drop_last()) + utf8_width(s.last())
    }
}

/// A `#` first and seven or nine bytes in all: taken as a hex color.
pub open spec fn hex_shaped(s: Seq<char>) -> bool {
    (utf8_len(s) == 7 || utf8_len(s) == 9) && s.len() > 0 && s[0] == '#'
}

fn utf8_len_exec(s: &str) -> (r: u128)
    ensures
        r == utf8_len(s@),
{
    let c = crate::text::chars_of(s);
    let mut total: u128 = 0;
    let mut i: usize = 0;
    while i < c.len()
        invariant
            i <= c.len(),
            c@ == s@,
            total == utf8_len(c@.take(i as int)),
            total <= 4 * i,
        decreases c.len() - i,
    {
        let x = c[i] as u32;
        let w: u128 = if x < 0x80 {
            1
        } else if x < 0x800 {
            2
        } else if x < 0x10000 {
            3
        } else {
            4
        };
        assert(c@.take(i + 1).drop_last() =~= c@.take(i as int));
        assert(c@.take(i + 1).last() == c@[i as int]);
        assert(w == utf8_width(c@[i as int]));
        total = total + w;
        i = i + 1;
    }
    assert(c@.take(c.len() as int) =~= s@);
    total
}

pub open spec fn unknown_color_message(s: Seq<char>) -> Seq<char> {
    "Unknown color: '"@ + s + "'"@
}

/// The text-color sequence of the color that a lowercase name stands for.
pub open spec fn name_fg(s: Seq<char>) -> Option<Seq<char>> {
    match named_color(s) {
        Some(c) => Some(fg(c)),
        None => if hex_shaped(s) {
            Some(crate::colors::hex_fg(s))
        } else {
            None
        },
    }
}

/// The key under which a color text is looked up.
pub open spec fn color_key(s: Seq<char>) -> Seq<char> {
    lower_of(trim_of(s))
}

/// What reading `name` as a color gives.
pub open spec fn name_result(name: Seq<char>, r: Result<Color, String>) -> bool {
    &&& (r is Ok <==> (named_color(name) is Some || hex_shaped(name)))
    &&& r matches Ok(c) ==> {
        &&& name_fg(name) == Some(fg(c))
        &&& match named_color(name) {
            Some(n) => c == n,
            None => c is Hex && c->Hex_0@ == name,
        }
    }
    &&& r matches Err(m) ==> m@ == unknown_color_message(name)
}

impl Color {
    /// Reads a color from a lowercase name, or from `#rrggbb` / `#rrggbbaa`.
    pub fn from_name(name: &str) -> (r: Result<Color, String>)
        ensures
            name_result(name@, r),
    {
        let found = if same_text(name, "red") { Some(Color::Red) }
        else if same_text(name, "green") { Some(Color::Green) }
        else if same_text(name, "yellow") { Some(Color::Yellow) }
        else if same_text(name, "blue") { Some(Color::Blue) }
        else if same_text(name, "magenta") { Some(Color::Magenta) }
        else if same_text(name, "cyan") { Some(Color::Cyan) }
        else if same_text(name, "white") { Some(Color::White) }
        else if same_text(name, "black") { Some(Color::Black) }
        else if same_text(name, "bright red") { Some(Color::BrightRed) }
        else if same_text(name, "bright green") { Some(Color::BrightGreen) }
        else if same_text(name, "bright yellow") { Some(Color::BrightYellow) }
        else if same_text(name, "bright blue") { Some(Color::BrightBlue) }
        else if same_text(name, "bright magenta") { Some(Color::BrightMagenta) }
        else if same_text(name, "bright cyan") { Some(Color::BrightCyan) }
        else if same_text(name, "bright white") { Some(Color::BrightWhite) }
        else if same_text(name, "bright black") { Some(Color::BrightBlack) }
        else if same_text(name, "orange") { Some(Color::Orange) }
        else if same_text(name, "pink") { Some(Color::Pink) }
        else if same_text(name, "teal") { Some(Color::Teal) }
        else if same_text(name, "violet") { Some(Color::Violet) }
        else if same_text(name, "indigo") { Some(Color::Indigo) }
        else if same_text(name, "lime") { Some(Color::Lime) }
        else if same_text(name, "turquoise") { Some(Color::Turquoise) }
        else if same_text(name, "coral") { Some(Color::Coral) }
        else if same_text(name, "crimson") { Some(Color::Crimson) }
        else if same_text(name, "mint") { Some(Color::Mint) }
        else if same_text(name, "gold") { Some(Color::Gold) }
        else if same_text(name, "silver") { Some(Color::Silver) }
        else if same_text(name, "bronze") { Some(Color::Bronze) }
        else if same_text(name, "light gray") { Some(Color::LightGray) }
        else if same_text(name, "dark gray") { Some(Color::DarkGray) }
        else if same_text(name, "slate gray") { Some(Color::SlateGray) }
        else if same_text(name, "charcoal") { Some(Color::Charcoal) }
        else if same_text(name, "transparent") { Some(Color::Transparent) }
        else { None };
        assert(found == named_color(name@));
        match found {
            Some(c) => Ok(c),
            None => {
                let chars = crate::text::chars_of(name);
                let bytes = utf8_len_exec(name);
                if (bytes == 7 || bytes == 9) && chars.len() > 0 && chars[0] == '#' {
                    Ok(Color::Hex(leak(String::from_str(name))))
                } else {
                    let mut m = String::from_str("Unknown color: '");
                    m.append(name);
                    m.append("'");
                    Err(m)
                }
            },
        }
    }

    /// Reads a color from its name in any case and with any surrounding
    /// whitespace, or from `#rrggbb` / `#rrggbbaa`.
    pub fn from_text(s: &str) -> (r: Result<Color, String>)
        ensures
            name_result(color_key(s@), r),
    {
        let t = trimmed(s);
        let l = lowercase(t);
        Color::from_name(l.as_str())
    }
}

impl std::str::FromStr for Color {
    type Err = String;

    fn from_str(s: &str) -> Result<Color, String> {
        Color::from_text(s)
    }
}

} // verus!
