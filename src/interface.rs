//! Cursor movement, clearing and boxes, as escape sequences gathered for the
//! terminal.
use vstd::prelude::*;
use crate::colors::{esc, fg, bg};
use crate::colorizing::{painted, TextStyle};
use crate::errors::Error;
use crate::text::{int_text, repeat, repeat_str, push_int, push_char};
use crate::widgets::{BoxConfig, border_chars};

verus! {

/// `ESC [ n c`
pub open spec fn csi(n: int, c: char) -> Seq<char> {
    esc() + int_text(n) + seq![c]
}

/// The sequence that puts the cursor at column `x`, row `y`, counted from 0.
pub open spec fn move_seq(x: int, y: int) -> Seq<char> {
    esc() + int_text(y + 1) + seq![';'] + int_text(x + 1) + seq!['H']
}

pub open spec fn fits_i32(v: int) -> bool {
    i32::MIN <= v <= i32::MAX
}

/// A border piece in the box's color on its background.
pub open spec fn boxed(cfg: BoxConfig, s: Seq<char>) -> Seq<char> {
    painted(bg(cfg.background), painted(fg(cfg.color), s))
}

pub open spec fn one(c: char) -> Seq<char> {
    seq![c]
}

/// Row `i` of the sides: the left border, the background-filled interior and
/// the right border.
pub open spec fn side_row(cfg: BoxConfig, i: int) -> Seq<char> {
    let (x, y, w) = (cfg.x as int, cfg.y as int, cfg.width as int);
    let v = border_chars(cfg.border_style).3;
    move_seq(x, y + i) + boxed(cfg, one(v)) + painted(bg(cfg.background), repeat(seq![' '], (w - 2) as nat))
        + move_seq(x + w - 1, y + i) + boxed(cfg, one(v))
}

/// Rows `1` up to `i`, not including `i`.
pub open spec fn side_rows(cfg: BoxConfig, i: int) -> Seq<char>
    decreases i,
{
    if i <= 1 {
        Seq::empty()
    } else {
        side_rows(cfg, i - 1) + side_row(cfg, i - 1)
    }
}

/// Everything that drawing a box writes.
pub open spec fn box_text(cfg: BoxConfig) -> Seq<char> {
    let (x, y, w, h) = (cfg.x as int, cfg.y as int, cfg.width as int, cfg.height as int);
    let (tl, hz, tr, _v, bl, br) = border_chars(cfg.border_style);
    let line = boxed(cfg, repeat(one(hz), (w - 2) as nat));
    move_seq(x, y) + boxed(cfg, one(tl)) + line + boxed(cfg, one(tr)) + side_rows(cfg, h - 1)
        + move_seq(x, y + h - 1) + boxed(cfg, one(bl)) + line + boxed(cfg, one(br))
}

/// The terminal as this library sees it: the escape sequences not yet sent,
/// and where the cursor was last put.
pub struct Interface {
    cursor_pos: (i32, i32),
    pending: String,
}

fn one_char(c: char) -> (r: String)
    ensures
        r@ == one(c),
{
    let mut s = String::new();
    push_char(&mut s, c);
    assert(s@ =~= one(c));
    s
}

fn boxed_exec(cfg: &BoxConfig, s: &String) -> (r: String)
    ensures
        r@ == boxed(*cfg, s@),
{
    let c = s.as_str().colorize(cfg.color);
    c.as_str().background(cfg.background)
}

fn move_text(x: i32, y: i32) -> (r: String)
    ensures
        r@ == move_seq(x as int, y as int),
{
    let mut s = String::from_str("\x1b[");
    push_int(&mut s, y as i64 + 1);
    push_char(&mut s, ';');
    push_int(&mut s, x as i64 + 1);
    push_char(&mut s, 'H');
    proof {
        reveal_strlit("\x1b[");
        assert(s@ =~= move_seq(x as int, y as int));
    }
    s
}

/// The cursor move to `(x, y)`, then the left corner, the line and the right
/// corner.
fn edge_text(x: i32, y: i32, left: &String, line: &String, right: &String) -> (r: String)
    ensures
        r@ == move_seq(x as int, y as int) + left@ + line@ + right@,
{
    let mut s = move_text(x, y);
    s.append(left.as_str());
    s.append(line.as_str());
    s.append(right.as_str());
    s
}

fn interior_text(cfg: &BoxConfig) -> (r: String)
    requires
        cfg.width >= 2,
    ensures
        r@ == painted(bg(cfg.background), repeat(seq![' '], (cfg.width - 2) as nat)),
{
    proof {
        reveal_strlit(" ");
        assert(" "@ =~= seq![' ']);
    }
    let s = repeat_str(" ", (cfg.width - 2) as usize);
    s.as_str().background(cfg.background)
}

fn side_row_text(cfg: &BoxConfig, i: i32, vertical: &String, interior: &String) -> (r: String)
    requires
        cfg.width >= 2,
        1 <= i < cfg.height,
        vertical@ == boxed(*cfg, one(border_chars(cfg.border_style).3)),
        interior@ == painted(bg(cfg.background), repeat(seq![' '], (cfg.width - 2) as nat)),
    ensures
        r@ == side_row(*cfg, i as int),
{
    let x = cfg.x as i32;
    let y = cfg.y as i32;
    let w = cfg.width as i32;
    let mut s = move_text(x, y + i);
    s.append(vertical.as_str());
    s.append(interior.as_str());
    s.append(move_text(x + w - 1, y + i).as_str());
    s.append(vertical.as_str());
    assert(s@ =~= side_row(*cfg, i as int));
    s
}

impl Interface {
    /// What has been written and not yet taken.
    pub closed spec fn output(&self) -> Seq<char> {
        self.pending@
    }

    /// The cursor position that the writes so far have set.
    pub closed spec fn cursor(&self) -> (int, int) {
        (self.cursor_pos.0 as int, self.cursor_pos.1 as int)
    }

    pub fn new() -> (r: Self)
        ensures
            r.output() == Seq::<char>::empty(),
            r.cursor() == (0int, 0int),
    {
        Interface { cursor_pos: (0, 0), pending: String::new() }
    }

    /// Hands out what has been written so far and starts afresh.
    pub fn take_output(&mut self) -> (r: String)
        ensures
            r@ == old(self).output(),
            final(self).output() == Seq::<char>::empty(),
            final(self).cursor() == old(self).cursor(),
    {
        let mut out = String::new();
        std::mem::swap(&mut out, &mut self.pending);
        out
    }

    pub fn write_escape(&mut self, escape_sequence: &str) -> (r: Result<(), Error>)
        ensures
            r is Ok,
            final(self).output() == old(self).output() + escape_sequence@,
            final(self).cursor() == old(self).cursor(),
    {
        self.pending.append(escape_sequence);
        Ok(())
    }

    fn write_csi(&mut self, n: i64, c: char)
        ensures
            final(self).output() == old(self).output() + csi(n as int, c),
            final(self).cursor() == old(self).cursor(),
    {
        let mut s = String::from_str("\x1b[");
        push_int(&mut s, n);
        push_char(&mut s, c);
        proof {
            reveal_strlit("\x1b[");
            assert(s@ =~= csi(n as int, c));
        }
        self.pending.append(s.as_str());
    }

    pub fn move_cursor(&mut self, x: i32, y: i32) -> (r: Result<(), Error>)
        ensures
            r is Ok,
            final(self).output() == old(self).output() + move_seq(x as int, y as int),
            final(self).cursor() == (x as int, y as int),
    {
        let s = move_text(x, y);
        self.pending.append(s.as_str());
        self.cursor_pos = (x, y);
        Ok(())
    }

    /// Sends the cursor-up sequence; the recorded row grows by `n`.
    pub fn move_cursor_up(&mut self, n: i32) -> (r: Result<(), Error>)
        requires
            fits_i32(old(self).cursor().1 + n),
        ensures
            r is Ok,
            final(self).output() == old(self).output() + csi(n as int, 'A'),
            final(self).cursor() == (old(self).cursor().0, old(self).cursor().1 + n),
    {
        self.write_csi(n as i64, 'A');
        self.cursor_pos = (self.cursor_pos.0, self.cursor_pos.1 + n);
        Ok(())
    }

    /// Sends the cursor-down sequence; the recorded row shrinks by `n`.
    pub fn move_cursor_down(&mut self, n: i32) -> (r: Result<(), Error>)
        requires
            fits_i32(old(self).cursor().1 - n),
        ensures
            r is Ok,
            final(self).output() == old(self).output() + csi(n as int, 'B'),
            final(self).cursor() == (old(self).cursor().0, old(self).cursor().1 - n),
    {
        self.write_csi(n as i64, 'B');
        self.cursor_pos = (self.cursor_pos.0, self.cursor_pos.1 - n);
        Ok(())
    }

    pub fn move_cursor_forward(&mut self, n: i32) -> (r: Result<(), Error>)
        requires
            fits_i32(old(self).cursor().0 + n),
        ensures
            r is Ok,
            final(self).output() == old(self).output() + csi(n as int, 'C'),
            final(self).cursor() == (old(self).cursor().0 + n, old(self).cursor().1),
    {
        self.write_csi(n as i64, 'C');
        self.cursor_pos = (self.cursor_pos.0 + n, self.cursor_pos.1);
        Ok(())
    }

    pub fn move_cursor_backward(&mut self, n: i32) -> (r: Result<(), Error>)
        requires
            fits_i32(old(self).cursor().0 - n),
        ensures
            r is Ok,
            final(self).output() == old(self).output() + csi(n as int, 'D'),
            final(self).cursor() == (old(self).cursor().0 - n, old(self).cursor().1),
    {
        self.write_csi(n as i64, 'D');
        self.cursor_pos = (self.cursor_pos.0 - n, self.cursor_pos.1);
        Ok(())
    }

    pub fn save_cursor(&mut self) -> (r: Result<(), Error>)
        ensures
            r is Ok,
            final(self).output() == old(self).output() + "\x1b[s"@,
            final(self).cursor() == old(self).cursor(),
    {
        self.write_escape("\x1b[s")
    }

    pub fn restore_cursor(&mut self) -> (r: Result<(), Error>)
        ensures
            r is Ok,
            final(self).output() == old(self).output() + "\x1b[u"@,
            final(self).cursor() == old(self).cursor(),
    {
        self.write_escape("\x1b[u")
    }

    pub fn scroll_up(&mut self, n: i32) -> (r: Result<(), Error>)
        ensures
            r is Ok,
            final(self).output() == old(self).output() + csi(n as int, 'S'),
            final(self).cursor() == old(self).cursor(),
    {
        self.write_csi(n as i64, 'S');
        Ok(())
    }

    pub fn scroll_down(&mut self, n: i32) -> (r: Result<(), Error>)
        ensures
            r is Ok,
            final(self).output() == old(self).output() + csi(n as int, 'T'),
            final(self).cursor() == old(self).cursor(),
    {
        self.write_csi(n as i64, 'T');
        Ok(())
    }

    /// Clears the screen and puts the cursor home.
    pub fn clear(&mut self) -> (r: Result<(), Error>)
        ensures
            r is Ok,
            final(self).output() == old(self).output() + "\x1b[2J\x1b[H"@,
            final(self).cursor() == (0int, 0int),
    {
        self.pending.append("\x1b[2J\x1b[H");
        self.cursor_pos = (0, 0);
        Ok(())
    }

    /// Draws a box with `config`'s border, colors and place; the cursor ends on
    /// the bottom row. A box is at least two columns wide.
    pub fn draw_box(&mut self, config: BoxConfig) -> (r: Result<(), Error>)
        requires
            config.width >= 2,
        ensures
            r is Ok,
            final(self).output() == old(self).output() + box_text(config),
            final(self).cursor() == (config.x as int, config.y as int + config.height as int - 1),
    {
        let (x, y, width, height) = (config.x as i32, config.y as i32, config.width as i32, config.height as i32);
        let (tl, hz, tr, v, bl, br) = config.border_style.chars();
        let ghost start = self.output();
        let line = boxed_exec(&config, &repeat_str(one_char(hz).as_str(), (width - 2) as usize));
        let vertical = boxed_exec(&config, &one_char(v));
        let interior = interior_text(&config);
        let top = edge_text(x, y, &boxed_exec(&config, &one_char(tl)), &line, &boxed_exec(&config, &one_char(tr)));
        self.pending.append(top.as_str());
        let ghost after_top = self.output();

        let mut i: i32 = 1;
        while i < height - 1
            invariant
                1 <= i,
                i <= height - 1 || i == 1,
                x == config.x as i32,
                y == config.y as i32,
                width == config.width as i32,
                height == config.height as i32,
                width >= 2,
                v == border_chars(config.border_style).3,
                vertical@ == boxed(config, one(v)),
                interior@ == painted(bg(config.background), repeat(seq![' '], (width - 2) as nat)),
                self.output() == after_top + side_rows(config, i as int),
            decreases height - i,
        {
            let row = side_row_text(&config, i, &vertical, &interior);
            let ghost before = self.output();
            self.pending.append(row.as_str());
            assert(side_rows(config, i + 1) == side_rows(config, i as int) + side_row(config, i as int));
            assert(self.output() =~= after_top + side_rows(config, i + 1));
            i = i + 1;
        }
        assert(side_rows(config, height - 1) == side_rows(config, i as int));
        let bottom = edge_text(x, y + height - 1, &boxed_exec(&config, &one_char(bl)), &line, &boxed_exec(&config, &one_char(br)));
        self.pending.append(bottom.as_str());
        self.cursor_pos = (x, y + height - 1);
        assert(self.output() =~= start + box_text(config));
        Ok(())
    }

    pub fn clear_line(&mut self) -> (r: Result<(), Error>)
        ensures
            r is Ok,
            final(self).output() == old(self).output() + "\x1b[2K"@,
            final(self).cursor() == old(self).cursor(),
    {
        self.write_escape("\x1b[2K")
    }

    pub fn clear_from_cursor_to_end(&mut self) -> (r: Result<(), Error>)
        ensures
            r is Ok,
            final(self).output() == old(self).output() + "\x1b[0J"@,
            final(self).cursor() == old(self).cursor(),
    {
        self.write_escape("\x1b[0J")
    }

    pub fn clear_from_cursor_to_begin(&mut self) -> (r: Result<(), Error>)
        ensures
            r is Ok,
            final(self).output() == old(self).output() + "\x1b[1J"@,
            final(self).cursor() == old(self).cursor(),
    {
        self.write_escape("\x1b[1J")
    }
}

} // verus!
