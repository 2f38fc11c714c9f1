use vstd::prelude::*;

use crate::encoding::{cp1252_char, cp1252_decode};
use crate::text::push_char;

verus! {

pub const TERM_COLS: usize = 90;
pub const TERM_ROWS: usize = 40;
pub const TAB_WIDTH: usize = 4;

/// What the terminal has seen of an escape sequence (ESC H, ESC J, ESC Y r c).
#[derive(Clone, Copy, Debug, PartialEq, Eq, Structural)]
pub enum EscapeState {
    Plain,
    Esc,
    EscYRow,
    EscYCol { row: usize },
}

/// Text that the terminal hands to the screen: characters to append to a
/// scrolling log, or the whole screen redrawn.
#[derive(Clone, Debug)]
pub enum OutputEvent {
    Append(String),
    Redraw(String),
}

pub enum OutputModel {
    Append(Seq<char>),
    Redraw(Seq<char>),
}

impl View for OutputEvent {
    type V = OutputModel;

    open spec fn view(&self) -> OutputModel {
        match self {
            OutputEvent::Append(s) => OutputModel::Append(s@),
            OutputEvent::Redraw(s) => OutputModel::Redraw(s@),
        }
    }
}

pub open spec fn opt_view(o: Option<OutputEvent>) -> Option<OutputModel> {
    match o {
        Some(e) => Some(e@),
        None => None,
    }
}

/// The screen of the terminal attached to the serial port: 40 rows of 90
/// characters, a cursor, and the escape-sequence state.
pub struct TerminalModel {
    pub buffer: Seq<char>,
    pub row: usize,
    pub col: usize,
    pub esc: EscapeState,
    pub screen_mode: bool,
}

pub open spec fn screen_len() -> int {
    TERM_COLS as int * TERM_ROWS as int
}

pub open spec fn blank_screen() -> Seq<char> {
    Seq::new(screen_len() as nat, |i: int| ' ')
}

/// The screen as text: the rows in order, separated by line feeds.
pub open spec fn render_rows(buf: Seq<char>, n: int) -> Seq<char>
    decreases n,
{
    if n <= 0 {
        Seq::empty()
    } else {
        let start = (n - 1) * TERM_COLS as int;
        render_rows(buf, n - 1) + buf.subrange(start, start + TERM_COLS as int) + (if n
            < TERM_ROWS as int {
            seq!['\n']
        } else {
            Seq::empty()
        })
    }
}

pub open spec fn render_spec(buf: Seq<char>) -> Seq<char> {
    render_rows(buf, TERM_ROWS as int)
}

/// Characters that a byte stands for in the scrolling (append) mode.
pub open spec fn append_text(value: u8) -> Seq<char> {
    if value == 0x00 || value == 0x07 || value == 0x08 || value == 0x0E || value == 0x0F || value
        == 0x11 || value == 0x18 || value == 0x1B {
        Seq::empty()
    } else if value == 0x0D {
        seq!['\r']
    } else if value == 0x0A {
        seq!['\n']
    } else if value == 0x09 {
        seq!['\t']
    } else {
        seq![cp1252_char(value)]
    }
}

pub open spec fn append_event(value: u8) -> Option<OutputModel> {
    if append_text(value).len() == 0 {
        None
    } else {
        Some(OutputModel::Append(append_text(value)))
    }
}

impl TerminalModel {
    pub open spec fn wf(self) -> bool {
        &&& self.buffer.len() == screen_len()
        &&& self.row < TERM_ROWS
        &&& self.col < TERM_COLS
    }

    pub open spec fn redraw(self) -> Option<OutputModel> {
        Some(OutputModel::Redraw(render_spec(self.buffer)))
    }

    pub open spec fn clear_screen(self) -> TerminalModel {
        TerminalModel { buffer: Seq::new(self.buffer.len(), |i: int| ' '), ..self }
    }

    pub open spec fn clear_to_end(self) -> TerminalModel {
        let idx = self.row as int * TERM_COLS as int + self.col as int;
        TerminalModel {
            buffer: Seq::new(self.buffer.len(), |i: int| if i >= idx { ' ' } else { self.buffer[i] }),
            ..self
        }
    }

    pub open spec fn scroll_up(self) -> TerminalModel {
        TerminalModel {
            buffer: self.buffer.subrange(TERM_COLS as int, screen_len()) + Seq::new(
                TERM_COLS as nat,
                |i: int| ' ',
            ),
            ..self
        }
    }

    /// Moves the cursor down a row, scrolling when it leaves the screen; the
    /// flag tells whether it scrolled.
    pub open spec fn new_line(self) -> (TerminalModel, bool) {
        if self.row + 1 >= TERM_ROWS {
            (TerminalModel { row: (TERM_ROWS - 1) as usize, ..self }.scroll_up(), true)
        } else {
            (TerminalModel { row: (self.row + 1) as usize, ..self }, false)
        }
    }

    pub open spec fn advance_cursor(self) -> TerminalModel {
        if self.col + 1 >= TERM_COLS {
            TerminalModel { col: 0, ..self }.new_line().0
        } else {
            TerminalModel { col: (self.col + 1) as usize, ..self }
        }
    }

    pub open spec fn put_char(self, ch: char) -> TerminalModel {
        let idx = self.row as int * TERM_COLS as int + self.col as int;
        let t = if idx < self.buffer.len() {
            TerminalModel { buffer: self.buffer.update(idx, ch), ..self }
        } else {
            self
        };
        t.advance_cursor()
    }

    /// Blanks up to the next tab stop (at most to the end of the row); the
    /// flag tells whether a cell was written.
    pub open spec fn tab(self) -> (TerminalModel, bool) {
        let next = (self.col as int / TAB_WIDTH as int + 1) * TAB_WIDTH as int;
        let stop = if next < TERM_COLS as int { next } else { TERM_COLS as int };
        let base = self.row as int * TERM_COLS as int;
        let changed = self.col < stop;
        let end_col = if self.col < stop { stop } else { self.col as int };
        let buffer = Seq::new(
            self.buffer.len(),
            |i: int| if base + self.col <= i < base + end_col { ' ' } else { self.buffer[i] },
        );
        let t = TerminalModel { buffer, col: end_col as usize, ..self };
        if t.col >= TERM_COLS {
            (TerminalModel { col: 0, ..t }.new_line().0, changed)
        } else {
            (t, changed)
        }
    }

    pub open spec fn screen_plain(self, value: u8) -> (TerminalModel, Option<OutputModel>) {
        if value == 0x00 || value == 0x07 || value == 0x0E || value == 0x0F || value == 0x11
            || value == 0x18 {
            (self, None)
        } else if value == 0x08 {
            (if self.col > 0 { TerminalModel { col: (self.col - 1) as usize, ..self } } else { self }, None)
        } else if value == 0x0D {
            (TerminalModel { col: 0, ..self }, None)
        } else if value == 0x0A {
            let (t, scrolled) = self.new_line();
            (t, if scrolled { t.redraw() } else { None })
        } else if value == 0x09 {
            let (t, changed) = self.tab();
            (t, if changed { t.redraw() } else { None })
        } else {
            let t = self.put_char(cp1252_char(value));
            (t, t.redraw())
        }
    }

    pub open spec fn screen_byte(self, value: u8) -> (TerminalModel, Option<OutputModel>) {
        match self.esc {
            EscapeState::Esc => {
                let t = TerminalModel { esc: EscapeState::Plain, ..self };
                if value == 0x48 {
                    (TerminalModel { row: 0, col: 0, ..t }, None)
                } else if value == 0x4A {
                    let t2 = t.clear_to_end();
                    (t2, t2.redraw())
                } else if value == 0x59 {
                    (TerminalModel { esc: EscapeState::EscYRow, ..t }, None)
                } else {
                    t.screen_plain(value)
                }
            },
            EscapeState::EscYRow => {
                let row = if value >= 0x20 { (value - 0x20) as usize } else { 0usize };
                (TerminalModel { esc: EscapeState::EscYCol { row }, ..self }, None)
            },
            EscapeState::EscYCol { row } => {
                let col = if value >= 0x20 { (value - 0x20) as usize } else { 0usize };
                (
                    TerminalModel {
                        row: if row < TERM_ROWS - 1 { row } else { (TERM_ROWS - 1) as usize },
                        col: if col < TERM_COLS - 1 { col } else { (TERM_COLS - 1) as usize },
                        esc: EscapeState::Plain,
                        ..self
                    },
                    None,
                )
            },
            EscapeState::Plain => {
                if value == 0x1B {
                    (TerminalModel { esc: EscapeState::Esc, ..self }, None)
                } else {
                    self.screen_plain(value)
                }
            },
        }
    }

    pub open spec fn append_byte(self, value: u8) -> (TerminalModel, Option<OutputModel>) {
        if self.esc == EscapeState::Esc {
            let t = TerminalModel { esc: EscapeState::Plain, ..self };
            if value == 0x48 || value == 0x4A || value == 0x59 {
                let t2 = TerminalModel { screen_mode: true, row: 0, col: 0, ..t.clear_screen() };
                if value == 0x48 {
                    (t2, None)
                } else if value == 0x4A {
                    let t3 = t2.clear_to_end();
                    (t3, t3.redraw())
                } else {
                    (TerminalModel { esc: EscapeState::EscYRow, ..t2 }, None)
                }
            } else {
                (t, append_event(value))
            }
        } else if value == 0x1B {
            (TerminalModel { esc: EscapeState::Esc, ..self }, None)
        } else {
            (self, append_event(value))
        }
    }

    /// One byte written to the terminal: the new terminal and what it shows.
    pub open spec fn process_byte(self, value: u8) -> (TerminalModel, Option<OutputModel>) {
        if self.screen_mode {
            self.screen_byte(value)
        } else {
            self.append_byte(value)
        }
    }
}

pub struct TerminalState {
    buffer: Vec<char>,
    cursor_row: usize,
    cursor_col: usize,
    escape_state: EscapeState,
    screen_mode: bool,
}

impl View for TerminalState {
    type V = TerminalModel;

    closed spec fn view(&self) -> TerminalModel {
        TerminalModel {
            buffer: self.buffer@,
            row: self.cursor_row,
            col: self.cursor_col,
            esc: self.escape_state,
            screen_mode: self.screen_mode,
        }
    }
}

pub open spec fn fresh_terminal() -> TerminalModel {
    TerminalModel {
        buffer: blank_screen(),
        row: 0,
        col: 0,
        esc: EscapeState::Plain,
        screen_mode: false,
    }
}

impl TerminalState {
    /// A blank terminal in scrolling mode.
    pub fn new() -> (t: Self)
        ensures
            t@ == fresh_terminal(),
    {
        let mut buffer: Vec<char> = Vec::new();
        let mut i: usize = 0;
        while i < TERM_COLS * TERM_ROWS
            invariant
                i <= screen_len(),
                buffer@ == Seq::new(i as nat, |k: int| ' '),
            decreases screen_len() - i,
        {
            buffer.push(' ');
            proof {
                assert(buffer@ =~= Seq::new((i + 1) as nat, |k: int| ' '));
            }
            i = i + 1;
        }
        let t = TerminalState {
            buffer,
            cursor_row: 0,
            cursor_col: 0,
            escape_state: EscapeState::Plain,
            screen_mode: false,
        };
        proof {
            assert(t@.buffer =~= blank_screen());
        }
        t
    }

    /// Processes one byte written to the terminal.
    pub fn process_byte(&mut self, value: u8) -> (out: Option<OutputEvent>)
        requires
            old(self)@.wf(),
        ensures
            final(self)@.wf(),
            (final(self)@, opt_view(out)) == old(self)@.process_byte(value),
    {
        if self.screen_mode {
            self.process_screen_byte(value)
        } else {
            self.process_append_byte(value)
        }
    }

    fn process_append_byte(&mut self, value: u8) -> (out: Option<OutputEvent>)
        requires
            old(self)@.wf(),
        ensures
            final(self)@.wf(),
            (final(self)@, opt_view(out)) == old(self)@.append_byte(value),
    {
        if self.escape_state == EscapeState::Esc {
            self.escape_state = EscapeState::Plain;
            if value == 0x48 || value == 0x4A || value == 0x59 {
                self.screen_mode = true;
                self.clear_screen();
                self.cursor_row = 0;
                self.cursor_col = 0;
                if value == 0x48 {
                    return None;
                } else if value == 0x4A {
                    self.clear_to_end();
                    return Some(OutputEvent::Redraw(self.render()));
                } else {
                    self.escape_state = EscapeState::EscYRow;
                    return None;
                }
            } else {
                return Self::process_append_plain(value);
            }
        }
        if value == 0x1B {
            self.escape_state = EscapeState::Esc;
            return None;
        }
        Self::process_append_plain(value)
    }

    fn process_append_plain(value: u8) -> (out: Option<OutputEvent>)
        ensures
            opt_view(out) == append_event(value),
    {
        let mut output = String::new();
        let output_char = cp1252_decode(value);
        if value == 0x00 || value == 0x07 || value == 0x08 || value == 0x0E || value == 0x0F
            || value == 0x11 || value == 0x18 || value == 0x1B {
        } else if value == 0x0D {
            push_char(&mut output, '\r');
        } else if value == 0x0A {
            push_char(&mut output, '\n');
        } else if value == 0x09 {
            push_char(&mut output, '\t');
        } else {
            push_char(&mut output, output_char);
        }
        proof {
            assert(output@ =~= append_text(value));
        }
        if output.as_str().is_empty() {
            None
        } else {
            Some(OutputEvent::Append(output))
        }
    }

    fn process_screen_byte(&mut self, value: u8) -> (out: Option<OutputEvent>)
        requires
            old(self)@.wf(),
        ensures
            final(self)@.wf(),
            (final(self)@, opt_view(out)) == old(self)@.screen_byte(value),
    {
        match self.escape_state {
            EscapeState::Esc => {
                self.escape_state = EscapeState::Plain;
                if value == 0x48 {
                    self.cursor_row = 0;
                    self.cursor_col = 0;
                    return None;
                } else if value == 0x4A {
                    self.clear_to_end();
                    return Some(OutputEvent::Redraw(self.render()));
                } else if value == 0x59 {
                    self.escape_state = EscapeState::EscYRow;
                    return None;
                } else {
                    return self.process_screen_plain(value);
                }
            },
            EscapeState::EscYRow => {
                let row = value.saturating_sub(0x20) as usize;
                self.escape_state = EscapeState::EscYCol { row };
                return None;
            },
            EscapeState::EscYCol { row } => {
                let col = value.saturating_sub(0x20) as usize;
                self.cursor_row = if row < TERM_ROWS - 1 { row } else { TERM_ROWS - 1 };
                self.cursor_col = if col < TERM_COLS - 1 { col } else { TERM_COLS - 1 };
                self.escape_state = EscapeState::Plain;
                return None;
            },
            EscapeState::Plain => {},
        }
        if value == 0x1B {
            self.escape_state = EscapeState::Esc;
            return None;
        }
        self.process_screen_plain(value)
    }

    fn process_screen_plain(&mut self, value: u8) -> (out: Option<OutputEvent>)
        requires
            old(self)@.wf(),
        ensures
            final(self)@.wf(),
            (final(self)@, opt_view(out)) == old(self)@.screen_plain(value),
    {
        if value == 0x00 || value == 0x07 || value == 0x0E || value == 0x0F || value == 0x11
            || value == 0x18 {
            None
        } else if value == 0x08 {
            if self.cursor_col > 0 {
                self.cursor_col = self.cursor_col - 1;
            }
            None
        } else if value == 0x0D {
            self.cursor_col = 0;
            None
        } else if value == 0x0A {
            let scrolled = self.new_line();
            if scrolled {
                Some(OutputEvent::Redraw(self.render()))
            } else {
                None
            }
        } else if value == 0x09 {
            let changed = self.tab();
            if changed {
                Some(OutputEvent::Redraw(self.render()))
            } else {
                None
            }
        } else {
            let ch = cp1252_decode(value);
            self.put_char(ch);
            Some(OutputEvent::Redraw(self.render()))
        }
    }

    fn put_char(&mut self, ch: char)
        requires
            old(self)@.wf(),
        ensures
            final(self)@.wf(),
            final(self)@ == old(self)@.put_char(ch),
    {
        let idx = self.cursor_row * TERM_COLS + self.cursor_col;
        if idx < self.buffer.len() {
            self.buffer.set(idx, ch);
        }
        self.advance_cursor();
    }

    fn advance_cursor(&mut self)
        requires
            old(self)@.buffer.len() == screen_len(),
            old(self)@.row < TERM_ROWS,
            old(self)@.col < TERM_COLS,
        ensures
            final(self)@.wf(),
            final(self)@ == old(self)@.advance_cursor(),
    {
        self.cursor_col = self.cursor_col + 1;
        if self.cursor_col >= TERM_COLS {
            self.cursor_col = 0;
            self.new_line();
        }
    }

    fn new_line(&mut self) -> (scrolled: bool)
        requires
            old(self)@.buffer.len() == screen_len(),
            old(self)@.row < TERM_ROWS,
        ensures
            final(self)@.buffer.len() == screen_len(),
            final(self)@.row < TERM_ROWS,
            final(self)@.col == old(self)@.col,
            (final(self)@, scrolled) == old(self)@.new_line(),
    {
        self.cursor_row = self.cursor_row + 1;
        if self.cursor_row >= TERM_ROWS {
            self.cursor_row = TERM_ROWS - 1;
            self.scroll_up();
            return true;
        }
        false
    }

    fn tab(&mut self) -> (changed: bool)
        requires
            old(self)@.wf(),
        ensures
            final(self)@.wf(),
            (final(self)@, changed) == old(self)@.tab(),
    {
        let ghost old_t = self@;
        let next = ((self.cursor_col / TAB_WIDTH) + 1) * TAB_WIDTH;
        let mut changed = false;
        let base = self.cursor_row * TERM_COLS;
        let start_col = self.cursor_col;
        while self.cursor_col < next && self.cursor_col < TERM_COLS
            invariant
                self.buffer@.len() == screen_len(),
                self.cursor_row == old_t.row,
                base == old_t.row * TERM_COLS,
                old_t.row < TERM_ROWS,
                start_col == old_t.col,
                start_col <= self.cursor_col <= TERM_COLS,
                self.cursor_col <= next || self.cursor_col == start_col,
                next == (start_col as int / TAB_WIDTH as int + 1) * TAB_WIDTH as int,
                self.escape_state == old_t.esc,
                self.screen_mode == old_t.screen_mode,
                changed == (self.cursor_col > start_col),
                forall|i: int|
                    0 <= i < screen_len() ==> #[trigger] self.buffer@[i] == (if base + start_col <= i
                        < base + self.cursor_col {
                        ' '
                    } else {
                        old_t.buffer[i]
                    }),
            decreases TERM_COLS - self.cursor_col,
        {
            let idx = base + self.cursor_col;
            if idx < self.buffer.len() {
                self.buffer.set(idx, ' ');
                changed = true;
            }
            self.cursor_col = self.cursor_col + 1;
        }
        proof {
            let stop = if next < TERM_COLS { next as int } else { TERM_COLS as int };
            assert(self.cursor_col == stop);
            let end_col = if start_col < stop { stop } else { start_col as int };
            assert(self.buffer@ =~= Seq::new(
                old_t.buffer.len(),
                |i: int|
                    if base + old_t.col <= i < base + end_col {
                        ' '
                    } else {
                        old_t.buffer[i]
                    },
            ));
        }
        if self.cursor_col >= TERM_COLS {
            self.cursor_col = 0;
            self.new_line();
        }
        changed
    }

    fn clear_screen(&mut self)
        requires
            old(self)@.buffer.len() == screen_len(),
        ensures
            final(self)@ == old(self)@.clear_screen(),
    {
        let ghost old_t = self@;
        let mut i: usize = 0;
        while i < self.buffer.len()
            invariant
                i <= self.buffer@.len(),
                self.buffer@.len() == old_t.buffer.len(),
                self.cursor_row == old_t.row,
                self.cursor_col == old_t.col,
                self.escape_state == old_t.esc,
                self.screen_mode == old_t.screen_mode,
                forall|k: int| 0 <= k < i ==> #[trigger] self.buffer@[k] == ' ',
            decreases self.buffer@.len() - i,
        {
            self.buffer.set(i, ' ');
            i = i + 1;
        }
        proof {
            assert(self.buffer@ =~= Seq::new(old_t.buffer.len(), |k: int| ' '));
        }
    }

    fn clear_to_end(&mut self)
        requires
            old(self)@.buffer.len() == screen_len(),
            old(self)@.row < TERM_ROWS,
            old(self)@.col < TERM_COLS,
        ensures
            final(self)@ == old(self)@.clear_to_end(),
    {
        let ghost old_t = self@;
        let start = self.cursor_row * TERM_COLS + self.cursor_col;
        let mut idx = start;
        while idx < self.buffer.len()
            invariant
                start <= idx,
                idx <= self.buffer@.len() || idx == start,
                start == old_t.row * TERM_COLS + old_t.col,
                self.buffer@.len() == old_t.buffer.len(),
                self.cursor_row == old_t.row,
                self.cursor_col == old_t.col,
                self.escape_state == old_t.esc,
                self.screen_mode == old_t.screen_mode,
                forall|k: int|
                    0 <= k < self.buffer@.len() ==> #[trigger] self.buffer@[k] == (if start <= k
                        < idx {
                        ' '
                    } else {
                        old_t.buffer[k]
                    }),
            decreases self.buffer@.len() - idx,
        {
            self.buffer.set(idx, ' ');
            idx = idx + 1;
        }
        proof {
            assert(self.buffer@ =~= Seq::new(
                old_t.buffer.len(),
                |i: int|
                    if i >= old_t.row as int * TERM_COLS as int + old_t.col as int {
                        ' '
                    } else {
                        old_t.buffer[i]
                    },
            ));
        }
    }

    fn scroll_up(&mut self)
        requires
            old(self)@.buffer.len() == screen_len(),
        ensures
            final(self)@ == old(self)@.scroll_up(),
    {
        let ghost old_t = self@;
        let total = TERM_COLS * TERM_ROWS;
        let shift = TERM_COLS;
        let mut i: usize = 0;
        while i < total - shift
            invariant
                i <= total - shift,
                total == screen_len(),
                shift == TERM_COLS,
                self.buffer@.len() == total,
                self.cursor_row == old_t.row,
                self.cursor_col == old_t.col,
                self.escape_state == old_t.esc,
                self.screen_mode == old_t.screen_mode,
                forall|k: int| 0 <= k < i ==> #[trigger] self.buffer@[k] == old_t.buffer[k + shift],
                forall|k: int| i <= k < total ==> #[trigger] self.buffer@[k] == old_t.buffer[k],
            decreases total - shift - i,
        {
            let v = self.buffer[i + shift];
            self.buffer.set(i, v);
            i = i + 1;
        }
        let mut j: usize = total - shift;
        while j < total
            invariant
                total - shift <= j <= total,
                total == screen_len(),
                shift == TERM_COLS,
                self.buffer@.len() == total,
                self.cursor_row == old_t.row,
                self.cursor_col == old_t.col,
                self.escape_state == old_t.esc,
                self.screen_mode == old_t.screen_mode,
                forall|k: int|
                    0 <= k < total - shift ==> #[trigger] self.buffer@[k] == old_t.buffer[k + shift],
                forall|k: int| total - shift <= k < j ==> #[trigger] self.buffer@[k] == ' ',
            decreases total - j,
        {
            self.buffer.set(j, ' ');
            j = j + 1;
        }
        proof {
            assert(self.buffer@ =~= old_t.buffer.subrange(TERM_COLS as int, screen_len())
                + Seq::new(TERM_COLS as nat, |i: int| ' '));
        }
    }

    /// The whole screen as text, rows separated by line feeds.
    pub fn render(&self) -> (s: String)
        requires
            self@.buffer.len() == screen_len(),
        ensures
            s@ == render_spec(self@.buffer),
    {
        let mut output = String::new();
        let mut row: usize = 0;
        while row < TERM_ROWS
            invariant
                row <= TERM_ROWS,
                self.buffer@.len() == screen_len(),
                output@ == render_rows(self.buffer@, row as int),
            decreases TERM_ROWS - row,
        {
            let start = row * TERM_COLS;
            let end = start + TERM_COLS;
            let mut k = start;
            let ghost before = output@;
            while k < end
                invariant
                    start <= k <= end,
                    end == start + TERM_COLS,
                    end <= screen_len(),
                    self.buffer@.len() == screen_len(),
                    output@ == before + self.buffer@.subrange(start as int, k as int),
                decreases end - k,
            {
                push_char(&mut output, self.buffer[k]);
                proof {
                    assert(self.buffer@.subrange(start as int, k + 1) =~= self.buffer@.subrange(
                        start as int,
                        k as int,
                    ).push(self.buffer@[k as int]));
                }
                k = k + 1;
            }
            if row + 1 < TERM_ROWS {
                push_char(&mut output, '\n');
            }
            proof {
                assert(output@ =~= render_rows(self.buffer@, row + 1));
            }
            row = row + 1;
        }
        output
    }
}

} // verus!
