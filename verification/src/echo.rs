use std::io::Write;
use termion::{clear, color, cursor};
use vstd::prelude::*;

verus! {

/// Color of a status glyph written by `Renderer::character`.
pub enum TermColor {
    Plain,
    Green,
    Red,
}

/// Owner of the terminal cursor.
///
/// The renderer counts the lines it has printed; a virtual line index handed
/// out by `line` stays valid while the renderer lives, and every write
/// primitive moves the cursor up to that line and back in one atomic escape
/// sequence. Callers that share a renderer across threads must put it behind
/// one lock and hold that lock for the duration of one primitive call.
pub struct Renderer {
    lines: u16,
}

impl Renderer {
    /// How many virtual lines have been printed so far.
    pub closed spec fn spec_lines(self) -> u16 {
        self.lines
    }

    pub fn new() -> (r: Renderer)
        ensures
            r.spec_lines() == 0,
    {
        Renderer { lines: 0 }
    }

    pub fn lines(&self) -> (r: u16)
        ensures
            r == self.spec_lines(),
    {
        self.lines
    }

    /// Reserves one fresh virtual line at the bottom of the printed block and
    /// returns its index.
    pub fn line(&mut self) -> (r: u16)
        requires
            old(self).spec_lines() < u16::MAX,
        ensures
            final(self).spec_lines() == old(self).spec_lines() + 1,
            r == old(self).spec_lines(),
    {
        print_blank();
        let current = self.lines;
        self.lines = current + 1;
        current
    }

    /// Writes `msg` at the start of the virtual line, then moves the cursor
    /// back `right` columns.
    pub fn async_print(&self, line: u16, right: u16, msg: &str)
        requires
            line < self.spec_lines(),
    {
        let up = self.lines - line;
        print_moved(up, msg, right);
    }

    /// Writes `msg` on the virtual line and restores the cursor column.
    pub fn message(&self, line: u16, offset: u16, msg: &str)
        requires
            line < self.spec_lines(),
    {
        let right = right_of(offset, msg);
        self.async_print(line, right, msg);
    }

    /// Replaces the tail of the virtual line, from `offset` on, with `msg`.
    pub fn inline_message(&self, line: u16, offset: u16, msg: &str)
        requires
            line < self.spec_lines(),
    {
        let up = self.lines - line;
        let right = right_of(offset, msg);
        print_inline(up, offset, msg, right);
    }

    /// Writes one colored character at column `offset` of the virtual line.
    pub fn character(&self, line: u16, offset: u16, c: char, color: TermColor)
        requires
            line < self.spec_lines(),
            offset < u16::MAX,
    {
        let up = self.lines - line;
        match color {
            TermColor::Plain => print_char_plain(up, offset, c, offset + 1),
            TermColor::Green => print_char_green(up, offset, c, offset + 1),
            TermColor::Red => print_char_red(up, offset, c, offset + 1),
        }
    }
}

/// The column count the cursor must travel back after writing `msg` at
/// `offset`: `offset + msg.len()`, saturated at the widest column a terminal
/// coordinate can name.
fn right_of(offset: u16, msg: &str) -> u16 {
    let l = msg.len();
    if l < (u16::MAX - offset) as usize {
        offset + (l as u16)
    } else {
        u16::MAX
    }
}

/// Relies on std::io::Stdout: prints one empty line.
#[verifier::external_body]
fn print_blank() {
    let mut out = std::io::stdout();
    let _ = writeln!(out);
}

/// Relies on termion's cursor escape sequences and std::io::Stdout: hides the
/// cursor, moves `up` rows up, writes `text`, moves `left` columns left and
/// `up` rows down again, shows the cursor and flushes.
#[verifier::external_body]
fn print_moved(up: u16, text: &str, left: u16) {
    let mut out = std::io::stdout();
    let _ = write!(
        out,
        "{}{}{}{}{}{}",
        cursor::Hide,
        cursor::Up(up),
        text,
        cursor::Left(left),
        cursor::Down(up),
        cursor::Show,
    );
    let _ = out.flush();
}

/// Relies on termion's cursor and clear escape sequences and std::io::Stdout:
/// like `print_moved`, but first moves `offset` columns right and clears the
/// rest of the row before writing `text`.
#[verifier::external_body]
fn print_inline(up: u16, offset: u16, text: &str, left: u16) {
    let mut out = std::io::stdout();
    let _ = write!(
        out,
        "{}{}{}{}{}{}{}{}",
        cursor::Hide,
        cursor::Up(up),
        cursor::Right(offset),
        clear::UntilNewline,
        text,
        cursor::Left(left),
        cursor::Down(up),
        cursor::Show,
    );
    let _ = out.flush();
}

/// Relies on termion's cursor escape sequences and std::io::Stdout: writes one
/// character in the default color at column `offset`, `up` rows above the
/// cursor, and restores the cursor.
#[verifier::external_body]
fn print_char_plain(up: u16, offset: u16, c: char, left: u16) {
    let mut out = std::io::stdout();
    let _ = write!(
        out,
        "{}{}{}{}{}{}{}{}{}",
        cursor::Hide,
        cursor::Up(up),
        cursor::Right(offset),
        color::Fg(color::Reset),
        c,
        color::Fg(color::Reset),
        cursor::Left(left),
        cursor::Down(up),
        cursor::Show,
    );
    let _ = out.flush();
}

/// Relies on termion's cursor and color escape sequences and std::io::Stdout:
/// as `print_char_plain`, in green.
#[verifier::external_body]
fn print_char_green(up: u16, offset: u16, c: char, left: u16) {
    let mut out = std::io::stdout();
    let _ = write!(
        out,
        "{}{}{}{}{}{}{}{}{}",
        cursor::Hide,
        cursor::Up(up),
        cursor::Right(offset),
        color::Fg(color::Green),
        c,
        color::Fg(color::Reset),
        cursor::Left(left),
        cursor::Down(up),
        cursor::Show,
    );
    let _ = out.flush();
}

/// Relies on termion's cursor and color escape sequences and std::io::Stdout:
/// as `print_char_plain`, in red.
#[verifier::external_body]
fn print_char_red(up: u16, offset: u16, c: char, left: u16) {
    let mut out = std::io::stdout();
    let _ = write!(
        out,
        "{}{}{}{}{}{}{}{}{}",
        cursor::Hide,
        cursor::Up(up),
        cursor::Right(offset),
        color::Fg(color::Red),
        c,
        color::Fg(color::Reset),
        cursor::Left(left),
        cursor::Down(up),
        cursor::Show,
    );
    let _ = out.flush();
}

/// Relies on termion::terminal_size: the size of the terminal on stdout, if
/// there is one. The reported height depends on the machine and the moment,
/// so nothing is promised of the value.
#[verifier::external_body]
pub(crate) fn terminal_height() -> (r: Option<u16>) {
    match termion::terminal_size() {
        Ok((_, y)) => Some(y),
        Err(_) => None,
    }
}

} // verus!
