use vstd::prelude::*;

use crate::cpu::terminal::{
    fresh_terminal, opt_view, OutputEvent, OutputModel, TerminalModel, TerminalState,
};

verus! {

/// Value that the constant input ports 0xA4, 0xA0 and 0x88 read as.
pub const PORT_A4_VALUE: u8 = 0x33;
pub const PORT_A0_VALUE: u8 = 0x34;
pub const PORT_88_VALUE: u8 = 0x35;

pub const ABORT_NONE: u8 = 0;
pub const ABORT_STOP: u8 = 1;
pub const ABORT_RESET: u8 = 2;

/// State of the serial port (USART 0) at ports 0x84 (data) and 0x85 (status).
#[derive(Clone, Copy, Debug, PartialEq, Eq, Structural)]
pub struct Usart0State {
    pub pending_command_27: bool,
    pub input_mode: bool,
    pub status: u8,
    pub input_ready: bool,
    pub input_data: u8,
}

pub open spec fn fresh_usart() -> Usart0State {
    Usart0State {
        pending_command_27: false,
        input_mode: false,
        status: 0,
        input_ready: false,
        input_data: 0,
    }
}

impl Usart0State {
    pub fn new() -> (s: Self)
        ensures
            s == fresh_usart(),
    {
        Usart0State {
            pending_command_27: false,
            input_mode: false,
            status: 0,
            input_ready: false,
            input_data: 0,
        }
    }
}

/// What the devices ask the world outside the processor to do: show text,
/// tell whether the program waits for a key, or discard queued keys.
#[derive(Clone, Debug)]
pub enum IoEvent {
    Output(OutputEvent),
    InputStatus(bool),
    DrainInput,
}

pub enum IoEventModel {
    Output(OutputModel),
    InputStatus(bool),
    DrainInput,
}

impl View for IoEvent {
    type V = IoEventModel;

    open spec fn view(&self) -> IoEventModel {
        match self {
            IoEvent::Output(o) => IoEventModel::Output(o@),
            IoEvent::InputStatus(b) => IoEventModel::InputStatus(*b),
            IoEvent::DrainInput => IoEventModel::DrainInput,
        }
    }
}

/// The devices attached to the processor's I/O ports, and the requests they
/// have made of the outside world that it has not yet taken.
#[verifier::ext_equal]
pub struct IoModel {
    pub usart: Usart0State,
    pub terminal: TerminalModel,
    pub input_abort: u8,
    pub io_reset_pending: bool,
    pub input_aborted: bool,
    pub input_retry: bool,
    pub input_awaiting: bool,
    pub trace_suppress: bool,
    pub events: Seq<IoEventModel>,
}

pub open spec fn fresh_io() -> IoModel {
    IoModel {
        usart: fresh_usart(),
        terminal: fresh_terminal(),
        input_abort: ABORT_NONE,
        io_reset_pending: false,
        input_aborted: false,
        input_retry: false,
        input_awaiting: false,
        trace_suppress: false,
        events: Seq::empty(),
    }
}

impl IoModel {
    pub open spec fn wf(self) -> bool {
        self.terminal.wf()
    }

    pub open spec fn emit(self, e: IoEventModel) -> IoModel {
        IoModel { events: self.events.push(e), ..self }
    }

    pub open spec fn emit_output(self, o: Option<OutputModel>) -> IoModel {
        match o {
            Some(out) => self.emit(IoEventModel::Output(out)),
            None => self,
        }
    }

    pub open spec fn init_for_new_sim(self) -> IoModel {
        IoModel {
            input_abort: ABORT_NONE,
            io_reset_pending: false,
            input_aborted: false,
            input_retry: false,
            input_awaiting: false,
            trace_suppress: false,
            usart: fresh_usart(),
            ..self
        }.emit(IoEventModel::InputStatus(false))
    }

    pub open spec fn abort_input_wait(self) -> IoModel {
        IoModel {
            input_abort: ABORT_STOP,
            input_aborted: true,
            input_retry: false,
            input_awaiting: false,
            ..self
        }.emit(IoEventModel::InputStatus(false))
    }

    pub open spec fn reset_io_state(self) -> IoModel {
        IoModel {
            input_abort: ABORT_RESET,
            io_reset_pending: true,
            input_aborted: true,
            input_retry: false,
            input_awaiting: false,
            ..self
        }
    }

    /// A requested reset, when one is pending, clears the serial port and
    /// the waiting state and discards queued keys.
    pub open spec fn apply_pending_reset(self) -> (IoModel, bool) {
        if !self.io_reset_pending {
            (self, false)
        } else {
            (
                IoModel {
                    io_reset_pending: false,
                    usart: fresh_usart(),
                    input_retry: false,
                    input_awaiting: false,
                    ..self
                }.emit(IoEventModel::DrainInput).emit(IoEventModel::InputStatus(false)),
                true,
            )
        }
    }

    /// A byte written to an output port.
    pub open spec fn output(self, device: u8, value: u8) -> IoModel {
        let m = self.apply_pending_reset().0;
        if device == 0x84 {
            let u = if m.usart.pending_command_27 {
                Usart0State { pending_command_27: false, input_mode: false, status: 1, ..m.usart }
            } else {
                m.usart
            };
            let (t, out) = m.terminal.process_byte(value);
            IoModel { usart: u, terminal: t, ..m }.emit_output(out)
        } else if device == 0x85 {
            if value == 0x27 {
                IoModel {
                    usart: Usart0State {
                        pending_command_27: true,
                        input_ready: false,
                        input_mode: false,
                        status: 0,
                        ..m.usart
                    },
                    input_retry: false,
                    input_awaiting: false,
                    ..m
                }
            } else {
                m
            }
        } else {
            m
        }
    }

    /// A byte read from an input port: the devices afterwards and the byte.
    pub open spec fn input(self, device: u8) -> (IoModel, u8) {
        let (m, was_reset) = self.apply_pending_reset();
        if was_reset {
            (IoModel { input_aborted: true, ..m }, 0x01)
        } else if device == 0x85 {
            let u = m.usart;
            if u.input_ready || u.input_mode {
                (m, 2)
            } else if u.pending_command_27 {
                (
                    IoModel {
                        usart: Usart0State {
                            pending_command_27: false,
                            input_mode: true,
                            status: 2,
                            ..u
                        },
                        ..m
                    },
                    2,
                )
            } else {
                (m, u.status)
            }
        } else if device == 0x84 {
            let u = m.usart;
            if u.input_ready {
                (
                    IoModel {
                        usart: Usart0State {
                            input_ready: false,
                            input_mode: false,
                            status: 0,
                            ..u
                        },
                        input_retry: false,
                        input_awaiting: false,
                        ..m
                    }.emit(IoEventModel::InputStatus(false)),
                    u.input_data,
                )
            } else {
                let u2 = if u.pending_command_27 {
                    Usart0State { pending_command_27: false, input_mode: true, ..u }
                } else {
                    u
                };
                let m2 = IoModel { usart: u2, ..m };
                if m2.input_awaiting {
                    (IoModel { input_retry: true, ..m2 }, 0x01)
                } else if u2.input_mode {
                    (
                        IoModel { input_retry: true, input_awaiting: true, ..m2 }.emit(
                            IoEventModel::InputStatus(true),
                        ),
                        0x01,
                    )
                } else {
                    (m2, 0x01)
                }
            }
        } else if device == 0xA4 {
            (m.output(0x84, PORT_A4_VALUE), PORT_A4_VALUE)
        } else if device == 0xA0 {
            (m.output(0x84, PORT_A0_VALUE), PORT_A0_VALUE)
        } else if device == 0x88 {
            (m.output(0x84, PORT_88_VALUE), PORT_88_VALUE)
        } else {
            (m, 0x01)
        }
    }

    /// A key that arrived while the program waited for one (`received`), or
    /// none: the devices afterwards and whether a key was taken.
    pub open spec fn poll_input(self, received: Option<u8>) -> (IoModel, bool) {
        if !self.input_awaiting {
            (self, false)
        } else {
            match received {
                Some(value) => (
                    IoModel {
                        usart: Usart0State {
                            input_ready: true,
                            input_data: value,
                            status: 2,
                            ..self.usart
                        },
                        input_awaiting: false,
                        input_retry: false,
                        ..self
                    }.emit(IoEventModel::DrainInput).emit(IoEventModel::InputStatus(false)),
                    true,
                ),
                None => (self, false),
            }
        }
    }
}

pub struct IoHandler {
    usart: Usart0State,
    terminal: TerminalState,
    input_abort: u8,
    io_reset_pending: bool,
    input_aborted: bool,
    input_retry: bool,
    input_awaiting: bool,
    trace_suppress: bool,
    events: Vec<IoEvent>,
}

impl View for IoHandler {
    type V = IoModel;

    closed spec fn view(&self) -> IoModel {
        IoModel {
            usart: self.usart,
            terminal: self.terminal@,
            input_abort: self.input_abort,
            io_reset_pending: self.io_reset_pending,
            input_aborted: self.input_aborted,
            input_retry: self.input_retry,
            input_awaiting: self.input_awaiting,
            trace_suppress: self.trace_suppress,
            events: self.events@.map_values(|e: IoEvent| e@),
        }
    }
}

impl IoHandler {
    /// Devices as they are before any simulation: a blank terminal, an idle
    /// serial port and no requests.
    pub fn new() -> (io: Self)
        ensures
            io@ == fresh_io(),
            io@.wf(),
    {
        let io = IoHandler {
            usart: Usart0State::new(),
            terminal: TerminalState::new(),
            input_abort: ABORT_NONE,
            io_reset_pending: false,
            input_aborted: false,
            input_retry: false,
            input_awaiting: false,
            trace_suppress: false,
            events: Vec::new(),
        };
        proof {
            assert(io@.events =~= Seq::<IoEventModel>::empty());
        }
        io
    }

    fn emit(&mut self, e: IoEvent)
        ensures
            final(self)@ == old(self)@.emit(e@),
    {
        let ghost before = self.events@;
        self.events.push(e);
        proof {
            assert(self.events@.map_values(|x: IoEvent| x@) =~= before.map_values(
                |x: IoEvent| x@,
            ).push(e@));
        }
    }

    fn emit_output(&mut self, o: Option<OutputEvent>)
        ensures
            final(self)@ == old(self)@.emit_output(opt_view(o)),
    {
        match o {
            Some(out) => self.emit(IoEvent::Output(out)),
            None => {},
        }
    }

    /// The requests made since they were last taken, oldest first; none
    /// remain.
    pub fn take_events(&mut self) -> (r: Vec<IoEvent>)
        ensures
            r@.map_values(|e: IoEvent| e@) == old(self)@.events,
            final(self)@ == (IoModel { events: Seq::empty(), ..old(self)@ }),
    {
        let mut r: Vec<IoEvent> = Vec::new();
        std::mem::swap(&mut r, &mut self.events);
        proof {
            assert(self@.events =~= Seq::<IoEventModel>::empty());
            assert(self@ =~= (IoModel { events: Seq::empty(), ..old(self)@ }));
        }
        r
    }

    /// Prepares the devices for a new simulation run.
    pub fn init_for_new_sim(&mut self)
        ensures
            final(self)@ == old(self)@.init_for_new_sim(),
    {
        self.input_abort = ABORT_NONE;
        self.io_reset_pending = false;
        self.input_aborted = false;
        self.input_retry = false;
        self.input_awaiting = false;
        self.trace_suppress = false;
        self.usart = Usart0State::new();
        self.emit(IoEvent::InputStatus(false));
    }

    /// Stops waiting for a key (the simulation was stopped).
    pub fn abort_input_wait(&mut self)
        ensures
            final(self)@ == old(self)@.abort_input_wait(),
    {
        self.input_abort = ABORT_STOP;
        self.input_aborted = true;
        self.input_retry = false;
        self.input_awaiting = false;
        self.emit(IoEvent::InputStatus(false));
    }

    /// Asks for the devices to be reset before the next port access.
    pub fn reset_io_state(&mut self)
        ensures
            final(self)@ == old(self)@.reset_io_state(),
    {
        self.input_abort = ABORT_RESET;
        self.io_reset_pending = true;
        self.input_aborted = true;
        self.input_retry = false;
        self.input_awaiting = false;
    }

    fn apply_pending_reset(&mut self) -> (reset: bool)
        ensures
            (final(self)@, reset) == old(self)@.apply_pending_reset(),
    {
        if !self.io_reset_pending {
            return false;
        }
        self.io_reset_pending = false;
        self.usart = Usart0State::new();
        self.input_retry = false;
        self.input_awaiting = false;
        self.emit(IoEvent::DrainInput);
        self.emit(IoEvent::InputStatus(false));
        true
    }

    /// A byte written by the processor to output port `device`.
    pub fn handle_output(&mut self, device: u8, value: u8)
        requires
            old(self)@.wf(),
        ensures
            final(self)@.wf(),
            final(self)@ == old(self)@.output(device, value),
    {
        let _ = self.apply_pending_reset();
        if device == 0x84 {
            if self.usart.pending_command_27 {
                self.usart.pending_command_27 = false;
                self.usart.input_mode = false;
                self.usart.status = 1;
            }
            let event = self.terminal.process_byte(value);
            self.emit_output(event);
        } else if device == 0x85 {
            if value == 0x27 {
                self.usart.pending_command_27 = true;
                self.usart.input_ready = false;
                self.usart.input_mode = false;
                self.usart.status = 0;
                self.input_retry = false;
                self.input_awaiting = false;
            }
        }
    }

    /// A byte read by the processor from input port `device`.
    pub fn handle_input(&mut self, device: u8) -> (v: u8)
        requires
            old(self)@.wf(),
        ensures
            final(self)@.wf(),
            (final(self)@, v) == old(self)@.input(device),
    {
        if self.apply_pending_reset() {
            self.input_aborted = true;
            return 0x01;
        }
        if device == 0x85 {
            if self.usart.input_ready {
                return 2;
            }
            if self.usart.input_mode {
                return 2;
            }
            if self.usart.pending_command_27 {
                self.usart.pending_command_27 = false;
                self.usart.input_mode = true;
                self.usart.status = 2;
                return 2;
            }
            self.usart.status
        } else if device == 0x84 {
            if self.usart.input_ready {
                let value = self.usart.input_data;
                self.usart.input_ready = false;
                self.usart.input_mode = false;
                self.usart.status = 0;
                self.input_retry = false;
                self.input_awaiting = false;
                self.emit(IoEvent::InputStatus(false));
                return value;
            }
            if self.usart.pending_command_27 {
                self.usart.pending_command_27 = false;
                self.usart.input_mode = true;
            }
            if self.input_awaiting {
                self.input_retry = true;
                return 0x01;
            }
            if self.usart.input_mode {
                self.input_retry = true;
                self.input_awaiting = true;
                self.emit(IoEvent::InputStatus(true));
                return 0x01;
            }
            0x01
        } else if device == 0xA4 {
            self.handle_output(0x84, PORT_A4_VALUE);
            PORT_A4_VALUE
        } else if device == 0xA0 {
            self.handle_output(0x84, PORT_A0_VALUE);
            PORT_A0_VALUE
        } else if device == 0x88 {
            self.handle_output(0x84, PORT_88_VALUE);
            PORT_88_VALUE
        } else {
            0x01
        }
    }

    pub fn input_aborted(&self) -> (b: bool)
        ensures
            b == self@.input_aborted,
    {
        self.input_aborted
    }

    /// Whether a read was cut short by a stop or reset; the mark is cleared.
    pub fn clear_input_aborted(&mut self) -> (was: bool)
        ensures
            was == old(self)@.input_aborted,
            final(self)@ == (IoModel { input_aborted: false, ..old(self)@ }),
    {
        let was = self.input_aborted;
        self.input_aborted = false;
        was
    }

    /// Whether the last instruction must run again because it read no key;
    /// when so, its trace entry is to be suppressed.
    pub fn take_input_retry(&mut self) -> (retry: bool)
        ensures
            retry == old(self)@.input_retry,
            final(self)@ == (IoModel {
                input_retry: false,
                trace_suppress: if retry { true } else { old(self)@.trace_suppress },
                ..old(self)@
            }),
    {
        let retry = self.input_retry;
        self.input_retry = false;
        if retry {
            self.trace_suppress = true;
        }
        retry
    }

    pub fn is_awaiting_input(&self) -> (b: bool)
        ensures
            b == self@.input_awaiting,
    {
        self.input_awaiting
    }

    pub fn mark_trace_suppress(&mut self)
        ensures
            final(self)@ == (IoModel { trace_suppress: true, ..old(self)@ }),
    {
        self.trace_suppress = true;
    }

    pub fn take_trace_suppress(&mut self) -> (b: bool)
        ensures
            b == old(self)@.trace_suppress,
            final(self)@ == (IoModel { trace_suppress: false, ..old(self)@ }),
    {
        let b = self.trace_suppress;
        self.trace_suppress = false;
        b
    }

    /// Hands over a key that arrived while the program waited for one.
    /// `received` is the next queued key, if any; the caller takes one from
    /// its queue only while `is_awaiting_input` holds.
    pub fn poll_input_ready(&mut self, received: Option<u8>) -> (taken: bool)
        ensures
            (final(self)@, taken) == old(self)@.poll_input(received),
    {
        if !self.input_awaiting {
            return false;
        }
        match received {
            Some(value) => {
                self.usart.input_ready = true;
                self.usart.input_data = value;
                self.usart.status = 2;
                self.emit(IoEvent::DrainInput);
                self.input_awaiting = false;
                self.input_retry = false;
                self.emit(IoEvent::InputStatus(false));
                true
            },
            None => false,
        }
    }

    pub fn terminal_text(&self) -> (s: String)
        requires
            self@.wf(),
        ensures
            s@ == crate::cpu::terminal::render_spec(self@.terminal.buffer),
    {
        self.terminal.render()
    }
}

} // verus!
