use vstd::prelude::*;
use crate::buffer::TextBuffer;
use crate::layout::{line_width, line_width_of, layout_line, decoded_chars};
use crate::search::{
    SearchState, Pattern, regex_accepts, all_matches, next_target, prev_target, find_next,
    find_prev, as_int,
};
use crate::viewport::{
    Viewport, last_top, tail_top, half, sat_mul, down_by, up_by, line_index, half_of, times,
    last_top_of, tail_top_of, scroll_down, scroll_up, go_to_line,
};

verus! {

#[derive(Debug, Clone, Copy, PartialEq, Eq, Structural)]
pub enum Mode {
    Normal,
    PatternInput,
    Following,
}

/// What the status line reports.
#[derive(Debug, Clone, Copy, PartialEq, Eq, Structural)]
pub enum Status {
    Clear,
    NotFound,
    BadPattern,
}

/// One key press, as the terminal reports it.
#[derive(Debug, Clone, Copy, PartialEq, Eq, Structural)]
pub enum Key {
    Char(char),
    Enter,
    Backspace,
    Esc,
    Interrupt,
    Other,
}

#[derive(Debug, Clone, Copy, PartialEq, Eq, Structural)]
pub struct Settings {
    pub show_linenumber: bool,
    pub wrap: bool,
    pub tab_width: u16,
}

/// The pager's whole state: the text, the window onto it, and the modal
/// command interpreter's state.
pub struct Pager {
    pub buffer: TextBuffer,
    pub view: Viewport,
    pub settings: Settings,
    pub mode: Mode,
    /// The mode that pattern input returns to.
    pub origin: Mode,
    pub prefix: Option<usize>,
    pub input: Vec<char>,
    pub search: SearchState,
    pub status: Status,
    pub quit: bool,
}

/// The repeat count a command takes from the prefix.
pub open spec fn count(p: Option<usize>) -> usize {
    match p {
        Some(n) => n,
        None => 1,
    }
}

/// The prefix after one more decimal digit, held at the largest count.
pub open spec fn push_digit(p: Option<usize>, d: usize) -> usize {
    let v = match p {
        Some(x) => x,
        None => 0,
    };
    sat_mul(v, 10).saturating_add(d)
}

/// A digit extends the prefix; a `0` that would start one is a command.
pub open spec fn is_digit_key(p: Option<usize>, k: Key) -> bool {
    k matches Key::Char(c) && '0' <= c && c <= '9' && (c != '0' || p is Some)
}

pub open spec fn digit_of(k: Key) -> usize {
    match k {
        Key::Char(c) => (c as u32 - '0' as u32) as usize,
        _ => 0,
    }
}

pub open spec fn following(s: Pager) -> bool {
    s.mode == Mode::Following || (s.mode == Mode::PatternInput && s.origin == Mode::Following)
}

pub open spec fn n_lines(s: Pager) -> nat {
    s.buffer.lines@.len()
}

/// The last line is on the screen.
pub open spec fn at_tail(s: Pager) -> bool {
    s.view.top + s.view.height >= n_lines(s)
}

impl Pager {
    pub open spec fn wf(&self) -> bool {
        &&& self.buffer.wf()
        &&& self.search.wf(self.buffer.line_seq())
        &&& self.view.height >= 1
        &&& self.view.width >= 1
        &&& self.settings.tab_width >= 1
        &&& self.view.top <= last_top(self.buffer.lines@.len())
        &&& self.origin != Mode::PatternInput
        &&& self.mode == Mode::PatternInput ==> self.prefix is None
    }
}

/// The viewport with a new screen height; in follow mode it stays on the
/// last lines.
pub open spec fn resized(s: Pager, h: usize) -> Viewport {
    Viewport {
        height: h,
        top: if s.mode == Mode::Following {
            tail_top(n_lines(s), h as nat) as usize
        } else {
            s.view.top
        },
        ..s.view
    }
}

/// A command that leaves the text, the pattern input and the search alone.
pub open spec fn plain(s: Pager, t: Pager, v: Viewport, st: Settings, quit: bool) -> bool {
    &&& t.view == v
    &&& t.settings == st
    &&& t.mode == s.mode
    &&& t.origin == s.origin
    &&& t.input == s.input
    &&& t.search == s.search
    &&& t.status == Status::Clear
    &&& t.quit == quit
}

/// `n` or `N` towards `target`: the cursor and the top line go to that
/// match, or the status says nothing was found.
pub open spec fn jump(s: Pager, t: Pager, target: Option<int>) -> bool {
    &&& t.settings == s.settings
    &&& t.mode == s.mode
    &&& t.origin == s.origin
    &&& t.input == s.input
    &&& t.quit == s.quit
    &&& t.search.pattern == s.search.pattern
    &&& t.search.matches == s.search.matches
    &&& t.search.scanned == s.search.scanned
    &&& match target {
        Some(i) => {
            &&& t.search.cursor == Some(i as usize)
            &&& t.view == Viewport { top: s.search.matches@[i].line, ..s.view }
            &&& t.status == Status::Clear
        },
        None => {
            &&& t.search.cursor == s.search.cursor
            &&& t.view == s.view
            &&& t.status == Status::NotFound
        },
    }
}

/// One screen row of a frame: glyphs `start .. end` of a line.
#[derive(Debug, Clone, Copy, PartialEq, Eq, Structural)]
pub struct FrameRow {
    pub line: usize,
    pub start: usize,
    pub end: usize,
}

/// Whether a line's columns can be counted in a `usize`.
pub open spec fn lays_out(bytes: Seq<u8>, tab_width: u16) -> bool {
    decoded_chars(bytes).len() <= (usize::MAX as int) / (tab_width + 3)
}

/// The glyphs an unwrapped row of the line holds.
pub open spec fn full_row_end(bytes: Seq<u8>, tab_width: u16) -> usize {
    if lays_out(bytes, tab_width) {
        decoded_chars(bytes).len() as usize
    } else {
        0
    }
}

/// Columns that the line-number gutter takes when it is shown.
pub const GUTTER: usize = 7;

/// Columns left for text: the gutter, when shown and when there is room
/// beside it, comes off the screen width.
pub open spec fn text_width(s: Pager) -> usize {
    if s.settings.show_linenumber && s.view.width > GUTTER {
        (s.view.width - GUTTER) as usize
    } else {
        s.view.width
    }
}

/// What `$` does to the horizontal offset: the line's end comes to the
/// right edge of the text area.
pub open spec fn end_of_line(s: Pager) -> usize {
    if n_lines(s) == 0 {
        s.view.left
    } else {
        match line_width_of(s.buffer.lines@[s.view.top as int]@, s.settings.tab_width) {
            Some(w) => w.saturating_sub(text_width(s)),
            None => s.view.left,
        }
    }
}

/// Commands of normal mode that follow mode does not have.
pub open spec fn normal_only(s: Pager, prefix: Option<usize>, k: Key, t: Pager) -> bool {
    let n = count(prefix);
    let v = s.view;
    let lines = n_lines(s);
    match k {
        Key::Char('j') => plain(s, t, Viewport { top: down_by(v.top, n, lines), ..v }, s.settings, s.quit),
        Key::Char('k') => plain(s, t, Viewport { top: up_by(v.top, n), ..v }, s.settings, s.quit),
        Key::Char('d') => plain(s, t, Viewport { top: down_by(v.top, sat_mul(n, half(v.height)), lines), ..v }, s.settings, s.quit),
        Key::Char('u') => plain(s, t, Viewport { top: up_by(v.top, sat_mul(n, half(v.height))), ..v }, s.settings, s.quit),
        Key::Char('f') => plain(s, t, Viewport { top: down_by(v.top, sat_mul(n, v.height), lines), ..v }, s.settings, s.quit),
        Key::Char('b') => plain(s, t, Viewport { top: up_by(v.top, sat_mul(n, v.height)), ..v }, s.settings, s.quit),
        Key::Char('l') => plain(s, t, Viewport { left: v.left.saturating_add(n), ..v }, s.settings, s.quit),
        Key::Char('h') => plain(s, t, Viewport { left: v.left.saturating_sub(n), ..v }, s.settings, s.quit),
        Key::Char('L') => plain(s, t, Viewport { left: v.left.saturating_add(sat_mul(n, half(v.width))), ..v }, s.settings, s.quit),
        Key::Char('H') => plain(s, t, Viewport { left: v.left.saturating_sub(sat_mul(n, half(v.width))), ..v }, s.settings, s.quit),
        Key::Char('0') => plain(s, t, Viewport { left: 0, ..v }, s.settings, s.quit),
        Key::Char('$') => plain(s, t, Viewport { left: end_of_line(s), ..v }, s.settings, s.quit),
        Key::Char('g') => plain(s, t, Viewport { top: line_index(n, lines), ..v }, s.settings, s.quit),
        Key::Char('G') => plain(
            s,
            t,
            Viewport {
                top: if prefix is Some {
                    line_index(n, lines)
                } else {
                    last_top(lines) as usize
                },
                ..v
            },
            s.settings,
            s.quit,
        ),
        Key::Char('n') => jump(s, t, next_target(s.search.matches@, v.top as int, s.search.cursor)),
        Key::Char('N') => jump(s, t, prev_target(s.search.matches@, v.top as int, s.search.cursor)),
        _ => plain(s, t, v, s.settings, s.quit),
    }
}

pub open spec fn is_normal_only(k: Key) -> bool {
    k matches Key::Char(c) && (c == 'j' || c == 'k' || c == 'd' || c == 'u' || c == 'f' || c == 'b'
        || c == 'l' || c == 'h' || c == 'L' || c == 'H' || c == '0' || c == '$' || c == 'g' || c
        == 'G' || c == 'n' || c == 'N')
}

/// A command key in normal or follow mode; the prefix is used up.
pub open spec fn command_step(s: Pager, k: Key, t: Pager) -> bool {
    let n = count(s.prefix);
    let v = s.view;
    let st = s.settings;
    &&& t.prefix is None
    &&& match k {
        Key::Interrupt | Key::Char('q') => plain(s, t, v, st, true),
        Key::Char('#') => plain(s, t, v, Settings { show_linenumber: !st.show_linenumber, ..st }, s.quit),
        Key::Char('!') => plain(s, t, v, Settings { wrap: !st.wrap, ..st }, s.quit),
        Key::Char('=') => plain(s, t, resized(s, if n >= 1 { n } else { 1 }), st, s.quit),
        Key::Char('+') => plain(s, t, resized(s, v.height.saturating_add(n)), st, s.quit),
        Key::Char('-') => plain(
            s,
            t,
            resized(s, if v.height.saturating_sub(n) >= 1 { v.height.saturating_sub(n) } else { 1 }),
            st,
            s.quit,
        ),
        Key::Char('/') => {
            &&& t.mode == Mode::PatternInput
            &&& t.origin == s.mode
            &&& t.input@.len() == 0
            &&& t.view == v
            &&& t.settings == st
            &&& t.search == s.search
            &&& t.status == Status::Clear
            &&& t.quit == s.quit
        },
        Key::Char('F') => {
            &&& t.mode == (if s.mode == Mode::Normal { Mode::Following } else { Mode::Normal })
            &&& t.view == (if s.mode == Mode::Normal {
                Viewport { top: tail_top(n_lines(s), v.height as nat) as usize, ..v }
            } else {
                v
            })
            &&& t.origin == s.origin
            &&& t.settings == st
            &&& t.input == s.input
            &&& t.search == s.search
            &&& t.status == Status::Clear
            &&& t.quit == s.quit
        },
        _ => if s.mode == Mode::Normal && is_normal_only(k) {
            normal_only(s, s.prefix, k, t)
        } else {
            plain(s, t, v, st, s.quit)
        },
    }
}

/// Committing a pattern that compiles: every line is searched; in normal
/// mode the screen goes to the first match below its top line.
pub open spec fn commit(s: Pager, t: Pager) -> bool {
    &&& t.mode == s.origin
    &&& t.origin == s.origin
    &&& t.input@.len() == 0
    &&& t.prefix is None
    &&& t.settings == s.settings
    &&& t.quit == s.quit
    &&& t.search.pattern matches Some(p) && p@ == s.input@
    &&& t.search.matches@ == all_matches(s.input@, s.buffer.line_seq())
    &&& t.search.scanned == n_lines(s)
    &&& if s.origin == Mode::Normal {
        match next_target(t.search.matches@, s.view.top as int, None) {
            Some(i) => {
                &&& t.search.cursor == Some(i as usize)
                &&& t.view == Viewport { top: t.search.matches@[i].line, ..s.view }
                &&& t.status == Status::Clear
            },
            None => {
                &&& t.search.cursor is None
                &&& t.view == s.view
                &&& t.status == Status::NotFound
            },
        }
    } else {
        &&& t.search.cursor is None
        &&& t.view == s.view
        &&& t.status == Status::Clear
    }
}

/// Everything but the pattern input and the status stays.
pub open spec fn typing(s: Pager, t: Pager) -> bool {
    &&& t.view == s.view
    &&& t.settings == s.settings
    &&& t.mode == s.mode
    &&& t.origin == s.origin
    &&& t.prefix == s.prefix
    &&& t.search == s.search
}

/// A key while a pattern is being typed.
pub open spec fn input_step(s: Pager, k: Key, t: Pager) -> bool {
    match k {
        Key::Char(c) => typing(s, t) && t.input@ == s.input@.push(c) && t.status == s.status
            && t.quit == s.quit,
        Key::Backspace => typing(s, t) && t.status == s.status && t.quit == s.quit && t.input@ == (
        if s.input@.len() > 0 {
            s.input@.drop_last()
        } else {
            s.input@
        }),
        Key::Esc => {
            &&& t.mode == s.origin
            &&& t.origin == s.origin
            &&& t.input@.len() == 0
            &&& t.view == s.view
            &&& t.settings == s.settings
            &&& t.prefix == s.prefix
            &&& t.search == s.search
            &&& t.status == Status::Clear
            &&& t.quit == s.quit
        },
        Key::Enter => if regex_accepts(s.input@) {
            commit(s, t)
        } else {
            typing(s, t) && t.input@ == s.input@ && t.status == Status::BadPattern && t.quit == s.quit
        },
        Key::Interrupt => typing(s, t) && t.input == s.input && t.status == s.status && t.quit,
        Key::Other => typing(s, t) && t.input == s.input && t.status == s.status && t.quit == s.quit,
    }
}

/// What one key does to the pager.
#[verifier::opaque]
pub open spec fn key_step(s: Pager, k: Key, t: Pager) -> bool {
    &&& t.buffer == s.buffer
    &&& if s.mode == Mode::PatternInput {
        input_step(s, k, t)
    } else if is_digit_key(s.prefix, k) {
        &&& t.prefix == Some(push_digit(s.prefix, digit_of(k)))
        &&& t.view == s.view
        &&& t.settings == s.settings
        &&& t.mode == s.mode
        &&& t.origin == s.origin
        &&& t.input == s.input
        &&& t.search == s.search
        &&& t.status == s.status
        &&& t.quit == s.quit
    } else {
        command_step(s, k, t)
    }
}

impl Pager {
    /// One key press: digits build the prefix, anything else is a command of
    /// the current mode.
    pub fn handle_key(&mut self, k: Key)
        requires
            old(self).wf(),
        ensures
            final(self).wf(),
            key_step(*old(self), k, *final(self)),
    {
        proof {
            reveal(key_step);
        }
        if self.mode == Mode::PatternInput {
            self.input_key(k);
            return;
        }
        match k {
            Key::Char(c) => {
                if '0' <= c && c <= '9' && (c != '0' || self.prefix.is_some()) {
                    let d = (c as u32 - '0' as u32) as usize;
                    let v = match self.prefix {
                        Some(x) => x,
                        None => 0,
                    };
                    self.prefix = Some(times(v, 10).saturating_add(d));
                    return;
                }
            },
            _ => {},
        }
        self.command(k);
    }

    fn resize(&mut self, h: usize)
        requires
            old(self).wf(),
            h >= 1,
        ensures
            final(self).wf(),
            final(self).view == resized(*old(self), h),
            final(self).buffer == old(self).buffer,
            final(self).settings == old(self).settings,
            final(self).mode == old(self).mode,
            final(self).origin == old(self).origin,
            final(self).prefix == old(self).prefix,
            final(self).input == old(self).input,
            final(self).search == old(self).search,
            final(self).status == old(self).status,
            final(self).quit == old(self).quit,
    {
        self.view.height = h;
        if self.mode == Mode::Following {
            self.view.top = tail_top_of(self.buffer.lines.len(), h);
        }
    }

    #[verifier::rlimit(100)]
    fn command(&mut self, k: Key)
        requires
            old(self).wf(),
            old(self).mode != Mode::PatternInput,
            !is_digit_key(old(self).prefix, k),
        ensures
            final(self).wf(),
            final(self).buffer == old(self).buffer,
            command_step(*old(self), k, *final(self)),
    {
        let prefix = self.prefix;
        let n = match prefix {
            Some(n) => n,
            None => 1,
        };
        self.prefix = None;
        self.status = Status::Clear;
        match k {
            Key::Interrupt => {
                self.quit = true;
            },
            Key::Char(c) => {
                if c == 'q' {
                    self.quit = true;
                } else if c == '#' {
                    self.settings.show_linenumber = !self.settings.show_linenumber;
                } else if c == '!' {
                    self.settings.wrap = !self.settings.wrap;
                } else if c == '=' {
                    self.resize(if n >= 1 { n } else { 1 });
                } else if c == '+' {
                    let h = self.view.height.saturating_add(n);
                    self.resize(h);
                } else if c == '-' {
                    let h = self.view.height.saturating_sub(n);
                    self.resize(if h >= 1 { h } else { 1 });
                } else if c == '/' {
                    self.origin = self.mode;
                    self.mode = Mode::PatternInput;
                    self.input = Vec::new();
                } else if c == 'F' {
                    if self.mode == Mode::Normal {
                        self.mode = Mode::Following;
                        self.view.top = tail_top_of(self.buffer.lines.len(), self.view.height);
                    } else {
                        self.mode = Mode::Normal;
                    }
                } else if self.mode == Mode::Normal {
                    self.normal_command(c, prefix);
                }
            },
            _ => {},
        }
    }

    fn normal_command(&mut self, c: char, prefix: Option<usize>)
        requires
            old(self).wf(),
            old(self).mode == Mode::Normal,
            old(self).prefix is None,
            old(self).status == Status::Clear,
        ensures
            final(self).wf(),
            final(self).buffer == old(self).buffer,
            final(self).prefix is None,
            is_normal_only(Key::Char(c)) ==> normal_only(*old(self), prefix, Key::Char(c), *final(self)),
            !is_normal_only(Key::Char(c)) ==> plain(*old(self), *final(self), old(self).view, old(self).settings, old(self).quit),
    {
        let n = match prefix {
            Some(n) => n,
            None => 1,
        };
        let lines = self.buffer.lines.len();
        let top = self.view.top;
        if c == 'j' {
            self.view.top = scroll_down(top, n, lines);
        } else if c == 'k' {
            self.view.top = scroll_up(top, n);
        } else if c == 'd' {
            let step = times(n, half_of(self.view.height));
            self.view.top = scroll_down(top, step, lines);
        } else if c == 'u' {
            let step = times(n, half_of(self.view.height));
            self.view.top = scroll_up(top, step);
        } else if c == 'f' {
            let step = times(n, self.view.height);
            self.view.top = scroll_down(top, step, lines);
        } else if c == 'b' {
            let step = times(n, self.view.height);
            self.view.top = scroll_up(top, step);
        } else if c == 'l' {
            self.view.left = self.view.left.saturating_add(n);
        } else if c == 'h' {
            self.view.left = self.view.left.saturating_sub(n);
        } else if c == 'L' {
            let step = times(n, half_of(self.view.width));
            self.view.left = self.view.left.saturating_add(step);
        } else if c == 'H' {
            let step = times(n, half_of(self.view.width));
            self.view.left = self.view.left.saturating_sub(step);
        } else if c == '0' {
            self.view.left = 0;
        } else if c == '$' {
            if lines > 0 {
                match line_width(self.buffer.lines[top].as_slice(), self.settings.tab_width) {
                    Some(w) => {
                        self.view.left = w.saturating_sub(self.text_width());
                    },
                    None => {},
                }
            }
        } else if c == 'g' {
            self.view.top = go_to_line(n, lines);
        } else if c == 'G' {
            self.view.top = match prefix {
                Some(p) => go_to_line(p, lines),
                None => last_top_of(lines),
            };
        } else if c == 'n' {
            match find_next(&self.search.matches, top, self.search.cursor) {
                Some(i) => {
                    self.search.cursor = Some(i);
                    self.view.top = self.search.matches[i].line;
                },
                None => {
                    self.status = Status::NotFound;
                },
            }
        } else if c == 'N' {
            match find_prev(&self.search.matches, top, self.search.cursor) {
                Some(i) => {
                    self.search.cursor = Some(i);
                    self.view.top = self.search.matches[i].line;
                },
                None => {
                    self.status = Status::NotFound;
                },
            }
        }
    }

    fn input_key(&mut self, k: Key)
        requires
            old(self).wf(),
            old(self).mode == Mode::PatternInput,
        ensures
            final(self).wf(),
            final(self).buffer == old(self).buffer,
            input_step(*old(self), k, *final(self)),
    {
        match k {
            Key::Char(c) => {
                self.input.push(c);
            },
            Key::Backspace => {
                if self.input.len() > 0 {
                    self.input.pop();
                }
            },
            Key::Esc => {
                self.mode = self.origin;
                self.input = Vec::new();
                self.status = Status::Clear;
            },
            Key::Enter => {
                self.commit_pattern();
            },
            Key::Interrupt => {
                self.quit = true;
            },
            Key::Other => {},
        }
    }

    fn commit_pattern(&mut self)
        requires
            old(self).wf(),
            old(self).mode == Mode::PatternInput,
        ensures
            final(self).wf(),
            final(self).buffer == old(self).buffer,
            regex_accepts(old(self).input@) ==> commit(*old(self), *final(self)),
            !regex_accepts(old(self).input@) ==> {
                &&& typing(*old(self), *final(self))
                &&& final(self).input@ == old(self).input@
                &&& final(self).status == Status::BadPattern
                &&& final(self).quit == old(self).quit
            },
    {
        match Pattern::compile(&mut self.input) {
            Some(p) => {
                let mut fresh = SearchState { pattern: Some(p), matches: Vec::new(), cursor: None, scanned: 0 };
                proof {
                    assert(self.buffer.line_seq().take(0) =~= Seq::<Seq<u8>>::empty());
                }
                fresh.scan_new_lines(&self.buffer);
                self.search = fresh;
                self.mode = self.origin;
                self.status = Status::Clear;
                if self.origin == Mode::Normal {
                    match find_next(&self.search.matches, self.view.top, None) {
                        Some(i) => {
                            self.search.cursor = Some(i);
                            self.view.top = self.search.matches[i].line;
                        },
                        None => {
                            self.status = Status::NotFound;
                        },
                    }
                }
            },
            None => {
                self.status = Status::BadPattern;
            },
        }
    }

    /// A pager over an empty buffer. A height or width of 0 counts as 1.
    pub fn new(
        height: usize,
        width: usize,
        tab_width: u16,
        show_linenumber: bool,
        follow: bool,
        wrap: bool,
    ) -> (r: Pager)
        requires
            tab_width >= 1,
        ensures
            r.wf(),
            r.buffer.lines@.len() == 0,
            !r.buffer.closed,
            r.view == (Viewport {
                top: 0,
                left: 0,
                height: if height >= 1 { height } else { 1 },
                width: if width >= 1 { width } else { 1 },
            }),
            r.settings == (Settings { show_linenumber, wrap, tab_width }),
            r.mode == (if follow { Mode::Following } else { Mode::Normal }),
            r.origin == Mode::Normal,
            r.prefix is None,
            r.input@.len() == 0,
            r.search.pattern is None,
            r.search.cursor is None,
            r.status == Status::Clear,
            !r.quit,
    {
        Pager {
            buffer: TextBuffer::new(),
            view: Viewport {
                top: 0,
                left: 0,
                height: if height >= 1 { height } else { 1 },
                width: if width >= 1 { width } else { 1 },
            },
            settings: Settings { show_linenumber, wrap, tab_width },
            mode: if follow { Mode::Following } else { Mode::Normal },
            origin: Mode::Normal,
            prefix: None,
            input: Vec::new(),
            search: SearchState::new(),
            status: Status::Clear,
            quit: false,
        }
    }

    /// New bytes from the source. The buffer grows; an active pattern is
    /// searched for in the new lines only; in follow mode a screen that
    /// showed the last line moves down to show the new last line, and any
    /// other position is kept.
    pub fn on_grow(&mut self, bytes: &[u8])
        requires
            old(self).wf(),
            !old(self).buffer.closed,
        ensures
            final(self).wf(),
            !final(self).buffer.closed,
            final(self).buffer.text() == old(self).buffer.text() + bytes@,
            old(self).buffer.line_seq().is_prefix_of(final(self).buffer.line_seq()),
            following(*old(self)) && at_tail(*old(self)) ==> final(self).view == (Viewport {
                top: tail_top(n_lines(*final(self)), old(self).view.height as nat) as usize,
                ..old(self).view
            }),
            following(*old(self)) && at_tail(*old(self)) ==> at_tail(*final(self)),
            !(following(*old(self)) && at_tail(*old(self))) ==> final(self).view == old(self).view,
            final(self).search.pattern == old(self).search.pattern,
            final(self).search.cursor == old(self).search.cursor,
            old(self).search.matches@.is_prefix_of(final(self).search.matches@),
            final(self).search.pattern matches Some(p) ==> final(self).search.matches@
                == all_matches(p@, final(self).buffer.line_seq()),
            final(self).settings == old(self).settings,
            final(self).mode == old(self).mode,
            final(self).origin == old(self).origin,
            final(self).prefix == old(self).prefix,
            final(self).input == old(self).input,
            final(self).status == old(self).status,
            final(self).quit == old(self).quit,
    {
        let was_at_tail = self.view.top as u128 + self.view.height as u128 >= self.buffer.lines.len() as u128;
        let follows = self.mode == Mode::Following || (self.mode == Mode::PatternInput && self.origin == Mode::Following);
        self.buffer.append(bytes);
        proof {
            assert forall|i: int| 0 <= i < old(self).buffer.line_seq().len() implies
                #[trigger] self.buffer.line_seq()[i] == old(self).buffer.line_seq()[i] by {}
            assert(self.buffer.line_seq().take(self.search.scanned as int)
                == old(self).buffer.line_seq().take(self.search.scanned as int));
        }
        if self.search.pattern.is_some() {
            self.search.scan_new_lines(&self.buffer);
        }
        if follows && was_at_tail {
            self.view.top = tail_top_of(self.buffer.lines.len(), self.view.height);
        }
    }

    /// The source has ended; an unfinished last line is added and searched.
    pub fn on_close(&mut self)
        requires
            old(self).wf(),
        ensures
            final(self).wf(),
            final(self).buffer.closed,
            final(self).view == old(self).view,
            final(self).search.pattern == old(self).search.pattern,
            final(self).search.cursor == old(self).search.cursor,
            old(self).search.matches@.is_prefix_of(final(self).search.matches@),
            final(self).search.pattern matches Some(p) ==> final(self).search.matches@
                == all_matches(p@, final(self).buffer.line_seq()),
            old(self).buffer.pending@.len() > 0 ==> final(self).buffer.line_seq() == old(
                self,
            ).buffer.line_seq().push(old(self).buffer.pending@),
            old(self).buffer.pending@.len() == 0 ==> final(self).buffer.line_seq() == old(
                self,
            ).buffer.line_seq(),
            final(self).mode == old(self).mode,
            final(self).settings == old(self).settings,
            final(self).origin == old(self).origin,
            final(self).prefix == old(self).prefix,
            final(self).input == old(self).input,
            final(self).status == old(self).status,
            final(self).quit == old(self).quit,
    {
        self.buffer.close();
        proof {
            assert(self.buffer.line_seq().take(self.search.scanned as int)
                == old(self).buffer.line_seq().take(self.search.scanned as int));
        }
        if self.search.pattern.is_some() {
            self.search.scan_new_lines(&self.buffer);
        }
    }

    /// The lines to draw, `top` up to at most a screenful, in order.
    pub fn visible_lines(&self) -> (r: (usize, usize))
        requires
            self.wf(),
        ensures
            r.0 == self.view.top,
            r.1 as int == if self.view.top + self.view.height <= n_lines(*self) {
                self.view.top + self.view.height
            } else {
                n_lines(*self) as int
            },
            r.0 <= r.1 || n_lines(*self) == 0,
    {
        let lines = self.buffer.lines.len();
        let top = self.view.top;
        let end = if self.view.height <= lines - top {
            top + self.view.height
        } else {
            lines
        };
        (top, end)
    }

    /// The first column shown: none but the first while lines wrap.
    pub fn shown_left(&self) -> (r: usize)
        ensures
            r == if self.settings.wrap {
                0
            } else {
                self.view.left
            },
    {
        if self.settings.wrap {
            0
        } else {
            self.view.left
        }
    }

    /// Columns left for text beside the line-number gutter.
    pub fn text_width(&self) -> (r: usize)
        ensures
            r == text_width(*self),
            self.view.width >= 1 ==> r >= 1,
    {
        if self.settings.show_linenumber && self.view.width > GUTTER {
            self.view.width - GUTTER
        } else {
            self.view.width
        }
    }

    /// The rows of the next frame, from the top line down: without
    /// wrapping one row per line, with it each line's wrapped rows in
    /// order; at most a screenful.
    pub fn frame_rows(&self) -> (r: Vec<FrameRow>)
        requires
            self.wf(),
        ensures
            r@.len() <= self.view.height,
            n_lines(*self) > 0 ==> r@.len() >= 1 && r@[0].line == self.view.top && r@[0].start
                == 0,
            forall|i: int|
                0 <= i < r@.len() ==> self.view.top <= (#[trigger] r@[i]).line < n_lines(*self)
                    && r@[i].start <= r@[i].end <= decoded_chars(
                    self.buffer.line_seq()[r@[i].line as int],
                ).len(),
            forall|i: int| 0 < i < r@.len() ==> (#[trigger] r@[i]).line >= r@[i - 1].line,
            forall|i: int|
                0 < i < r@.len() && (#[trigger] r@[i]).line == r@[i - 1].line ==> r@[i].start
                    == r@[i - 1].end,
            !self.settings.wrap ==> r@.len() == (if self.view.top + self.view.height <= n_lines(
                *self,
            ) {
                self.view.height as int
            } else {
                n_lines(*self) - self.view.top
            }),
            !self.settings.wrap ==> forall|i: int|
                0 <= i < r@.len() ==> (#[trigger] r@[i]) == (FrameRow {
                    line: (self.view.top + i) as usize,
                    start: 0,
                    end: full_row_end(
                        self.buffer.line_seq()[self.view.top + i],
                        self.settings.tab_width,
                    ),
                }),
    {
        let lines = self.buffer.lines.len();
        let height = self.view.height;
        let top = self.view.top;
        let tw = self.text_width();
        let wrap = self.settings.wrap;
        let tab = self.settings.tab_width;
        let ghost texts = self.buffer.line_seq();
        let mut out: Vec<FrameRow> = Vec::new();
        let mut line = top;
        proof {
            reveal(frame_so_far);
        }
        while line < lines && out.len() < height
            invariant
                lines == self.buffer.lines@.len(),
                texts == self.buffer.line_seq(),
                height == self.view.height,
                top == self.view.top,
                wrap == self.settings.wrap,
                tab == self.settings.tab_width,
                tab >= 1,
                tw >= 1,
                height >= 1,
                lines > 0 ==> top < lines,
                top <= line <= lines || lines == 0,
                lines == 0 ==> line == top,
                frame_so_far(out@, texts, top, line, height, wrap, tab),
            decreases lines - line,
        {
            let bytes = self.buffer.lines[line].as_slice();
            let ghost before = out@;
            assert(texts[line as int] == bytes@);
            match layout_line(bytes, tab, wrap, tw) {
                Some(l) => {
                    proof {
                        if wrap {
                            lemma_wrapped_chained(l.glyphs@, tw as int, l.rows@);
                        }
                    }
                    push_rows(&mut out, line, &l.rows, height, Ghost(l.chars@.len()));
                    proof {
                        lemma_frame_rows_step(before, out@, texts, top, line, height, wrap, tab, l.rows@);
                    }
                },
                None => {
                    out.push(FrameRow { line, start: 0, end: 0 });
                    proof {
                        lemma_frame_empty_step(before, out@, texts, top, line, height, wrap, tab);
                    }
                },
            }
            line = line + 1;
        }
        proof {
            reveal(frame_so_far);
        }
        out
    }
}

#[verifier::rlimit(60)]
proof fn lemma_frame_rows_step(
    before: Seq<FrameRow>,
    after: Seq<FrameRow>,
    texts: Seq<Seq<u8>>,
    top: usize,
    line: usize,
    height: usize,
    wrap: bool,
    tab: u16,
    rows: Seq<(usize, usize)>,
)
    requires
        frame_so_far(before, texts, top, line, height, wrap, tab),
        top <= line < texts.len(),
        line < usize::MAX,
        before.len() < height,
        chained(rows, decoded_chars(texts[line as int]).len()),
        lays_out(texts[line as int], tab),
        !wrap ==> rows == seq![(0usize, decoded_chars(texts[line as int]).len() as usize)],
        after.len() == before.len() + (if rows.len() <= height - before.len() {
            rows.len() as int
        } else {
            height - before.len()
        }),
        after.subrange(0, before.len() as int) == before,
        forall|j: int|
            before.len() <= j < after.len() ==> (#[trigger] after[j]) == (FrameRow {
                line,
                start: rows[j - before.len()].0,
                end: rows[j - before.len()].1,
            }),
    ensures
        frame_so_far(after, texts, top, (line + 1) as usize, height, wrap, tab),
{
    reveal(frame_so_far);
    let b = before.len() as int;
    let n = decoded_chars(texts[line as int]).len();
    assert forall|i: int| 0 <= i < b implies after[i] == before[i] by {
        assert(after.subrange(0, b)[i] == after[i]);
    }
    assert(after[b] == FrameRow { line, start: rows[0].0, end: rows[0].1 });
    assert forall|i: int| 0 <= i < after.len() implies top <= (#[trigger] after[i]).line
        < texts.len() && after[i].start <= after[i].end <= decoded_chars(
        texts[after[i].line as int],
    ).len() by {
        if i >= b {
            assert(rows[i - b].0 <= rows[i - b].1 <= n);
        } else {
            assert(after[i] == before[i]);
        }
    }
    assert forall|i: int| 0 < i < after.len() implies (#[trigger] after[i]).line >= after[i
        - 1].line by {
        if i > b {
        } else if i == b {
            assert(before.last() == after[i - 1]);
        } else {
            assert(after[i] == before[i]);
            assert(after[i - 1] == before[i - 1]);
        }
    }
    assert forall|i: int| 0 < i < after.len() && (#[trigger] after[i]).line == after[i - 1].line
        implies after[i].start == after[i - 1].end by {
        if i > b {
            assert(rows[i - b - 1].1 == rows[i - b].0);
        } else if i == b {
            assert(before.last() == after[i - 1]);
        } else {
            assert(after[i] == before[i]);
            assert(after[i - 1] == before[i - 1]);
        }
    }
    if !wrap {
        assert(after.len() == b + 1);
        assert forall|i: int| 0 <= i < after.len() implies (#[trigger] after[i]) == (FrameRow {
            line: (top + i) as usize,
            start: 0,
            end: full_row_end(texts[top + i], tab),
        }) by {
            if i < b {
                assert(after[i] == before[i]);
            }
        }
    }
    assert(after.last() == after[after.len() - 1]);
}

proof fn lemma_frame_empty_step(
    before: Seq<FrameRow>,
    after: Seq<FrameRow>,
    texts: Seq<Seq<u8>>,
    top: usize,
    line: usize,
    height: usize,
    wrap: bool,
    tab: u16,
)
    requires
        frame_so_far(before, texts, top, line, height, wrap, tab),
        top <= line < texts.len(),
        line < usize::MAX,
        before.len() < height,
        !lays_out(texts[line as int], tab),
        after == before.push(FrameRow { line, start: 0, end: 0 }),
    ensures
        frame_so_far(after, texts, top, (line + 1) as usize, height, wrap, tab),
{
    reveal(frame_so_far);
}

/// Row ranges that start at glyph 0, follow on from each other, and stay
/// within `n` glyphs.
pub open spec fn chained(rows: Seq<(usize, usize)>, n: nat) -> bool {
    &&& rows.len() >= 1
    &&& rows[0].0 == 0
    &&& forall|k: int| 0 <= k < rows.len() - 1 ==> (#[trigger] rows[k]).1 == rows[k + 1].0
    &&& forall|k: int| 0 <= k < rows.len() ==> (#[trigger] rows[k]).0 <= rows[k].1 <= n
}

proof fn lemma_wrapped_chained(gs: Seq<crate::layout::Glyph>, w: int, rows: Seq<(usize, usize)>)
    requires
        crate::layout::wrapped(gs, w, rows),
    ensures
        chained(rows, gs.len()),
{
    assert forall|k: int| 0 <= k < rows.len() implies (#[trigger] rows[k]).0 <= rows[k].1 <= gs.len() by {
        lemma_rows_bounded(gs, w, rows, k);
    }
}

/// Appends the line's rows to `out` until the frame holds `height` rows.
fn push_rows(
    out: &mut Vec<FrameRow>,
    line: usize,
    rows: &Vec<(usize, usize)>,
    height: usize,
    Ghost(n): Ghost<nat>,
)
    requires
        chained(rows@, n),
        old(out)@.len() < height,
    ensures
        final(out)@.len() == old(out)@.len() + (if rows@.len() <= height - old(out)@.len() {
            rows@.len() as int
        } else {
            height - old(out)@.len()
        }),
        final(out)@.subrange(0, old(out)@.len() as int) == old(out)@,
        forall|j: int|
            old(out)@.len() <= j < final(out)@.len() ==> (#[trigger] final(out)@[j]) == (FrameRow {
                line,
                start: rows@[j - old(out)@.len()].0,
                end: rows@[j - old(out)@.len()].1,
            }),
{
    let ghost base = out@;
    let mut k: usize = 0;
    while k < rows.len() && out.len() < height
        invariant
            k <= rows@.len(),
            out@.len() == base.len() + k,
            out@.len() <= height,
            out@.subrange(0, base.len() as int) == base,
            forall|j: int|
                base.len() <= j < out@.len() ==> (#[trigger] out@[j]) == (FrameRow {
                    line,
                    start: rows@[j - base.len()].0,
                    end: rows@[j - base.len()].1,
                }),
        decreases rows@.len() - k,
    {
        let (a, b) = rows[k];
        out.push(FrameRow { line, start: a, end: b });
        k = k + 1;
    }
}

/// `out` is the frame for the lines `top .. line`.
#[verifier::opaque]
pub open spec fn frame_so_far(
    out: Seq<FrameRow>,
    texts: Seq<Seq<u8>>,
    top: usize,
    line: usize,
    height: usize,
    wrap: bool,
    tab: u16,
) -> bool {
    &&& out.len() <= height
    &&& line > top ==> out.len() >= 1
    &&& out.len() >= 1 ==> out[0].line == top && out[0].start == 0
    &&& out.len() >= 1 ==> out.last().line < line
    &&& forall|i: int|
        0 <= i < out.len() ==> top <= (#[trigger] out[i]).line < texts.len() && out[i].start
            <= out[i].end <= decoded_chars(texts[out[i].line as int]).len()
    &&& forall|i: int| 0 < i < out.len() ==> (#[trigger] out[i]).line >= out[i - 1].line
    &&& forall|i: int|
        0 < i < out.len() && (#[trigger] out[i]).line == out[i - 1].line ==> out[i].start
            == out[i - 1].end
    &&& !wrap ==> out.len() == line - top
    &&& !wrap ==> forall|i: int|
        0 <= i < out.len() ==> (#[trigger] out[i]) == (FrameRow {
            line: (top + i) as usize,
            start: 0,
            end: full_row_end(texts[top + i], tab),
        })
}

proof fn lemma_rows_bounded(gs: Seq<crate::layout::Glyph>, w: int, rows: Seq<(usize, usize)>, k: int)
    requires
        crate::layout::wrapped(gs, w, rows),
        0 <= k < rows.len(),
    ensures
        rows[k].1 <= gs.len(),
    decreases rows.len() - k,
{
    if k < rows.len() - 1 {
        lemma_rows_bounded(gs, w, rows, k + 1);
        assert(rows[k].1 == rows[k + 1].0);
        assert(rows[k + 1].0 <= rows[k + 1].1);
    }
}

} // verus!
