use vstd::prelude::*;

use crate::cpu::io_handler::{IoEvent, IoEventModel, IoModel};
use crate::cpu::deassembler::deassemble_spec;
use crate::cpu::isa::{wrap16, CpuModel};
use crate::cpu::terminal::OutputEvent;
use crate::cpu::{after_reset, state_of, Cpu, CpuState, InstructionTrace};

verus! {

/// Commands to the simulation loop.
pub enum SimCommand {
    Run,
    Step,
    Stop,
    Reset,
    SetCyclesLimit(Option<u64>),
}

/// What the simulation loop reports.
#[derive(Debug, Clone)]
pub enum SimulationEvent {
    Output(OutputEvent),
    InputStatus(bool),
    CyclesPerSecond(u64),
    Halted(bool),
    CpuState(CpuState),
    MemorySnapshot(Vec<u8>),
    Trace(InstructionTrace),
    TraceBatch(Vec<InstructionTrace>),
}

/// Most instructions run between two looks at the command queue.
pub const RUN_BATCH_STEPS: usize = 20000;

/// The highest speed limit, in cycles per second.
pub const MAX_CYCLES_LIMIT: u64 = 6000000;

/// A speed limit no higher than `MAX_CYCLES_LIMIT`.
pub fn clamp_cycles_limit(limit: Option<u64>) -> (r: Option<u64>)
    ensures
        r == match limit {
            Some(v) => Some(if v <= MAX_CYCLES_LIMIT { v } else { MAX_CYCLES_LIMIT }),
            None => None,
        },
{
    match limit {
        Some(v) => Some(if v <= MAX_CYCLES_LIMIT { v } else { MAX_CYCLES_LIMIT }),
        None => None,
    }
}

/// The cycles that one batch may take under a speed limit: the cycles of
/// a twentieth of a second (rounded up, at least one); no bound without a
/// limit.
pub fn batch_cycle_budget(limit: Option<u64>) -> (r: u64)
    ensures
        r == match limit {
            Some(v) => if v == 0 { 1 } else { ((v as int + 19) / 20) as u64 },
            None => u64::MAX,
        },
        r >= 1,
{
    match limit {
        Some(v) => {
            if v == 0 {
                1
            } else {
                v / 20 + if v % 20 == 0 { 0 } else { 1 }
            }
        },
        None => u64::MAX,
    }
}

/// Where the loop was when a command arrived.
#[derive(Clone, Copy, Debug, PartialEq, Eq, Structural)]
pub enum CommandContext {
    /// Not running: waiting for a command.
    Idle,
    /// Running, but the program waits for a key.
    AwaitingInput,
    /// Between two instructions of a batch.
    InBatch,
    /// After a batch.
    AfterBatch,
}

/// What the loop does for a command.
#[derive(Clone, Copy, Debug, PartialEq, Eq, Structural)]
pub enum CommandAction {
    /// Start (or keep) running.
    Resume,
    /// Execute one instruction; `trace` says whether its trace is kept,
    /// `into_batch` whether it counts in the current batch.
    StepOnce { trace: bool, into_batch: bool },
    /// Clear the mark of a read cut short and stop running; `end_batch`
    /// ends the current batch.
    Pause { end_batch: bool },
    /// Clear the mark of a read cut short and reset the processor;
    /// `end_batch` ends the current batch.
    ResetCpu { end_batch: bool },
    /// Take a new speed limit, cut to `MAX_CYCLES_LIMIT`.
    SetLimit(Option<u64>),
}

/// The action for a command: a step keeps its trace when debug events are
/// published, and always while the program waits for a key; inside a
/// batch it counts in the batch; stop and reset end a batch.
pub open spec fn action_for(cmd: SimCommand, ctx: CommandContext, publish_debug_events: bool) -> CommandAction {
    match cmd {
        SimCommand::Run => CommandAction::Resume,
        SimCommand::Step => CommandAction::StepOnce {
            trace: publish_debug_events || ctx == CommandContext::AwaitingInput,
            into_batch: ctx == CommandContext::InBatch,
        },
        SimCommand::Stop => CommandAction::Pause { end_batch: ctx == CommandContext::InBatch },
        SimCommand::Reset => CommandAction::ResetCpu { end_batch: ctx == CommandContext::InBatch },
        SimCommand::SetCyclesLimit(l) => CommandAction::SetLimit(
            match l {
                Some(v) => Some(if v <= MAX_CYCLES_LIMIT { v } else { MAX_CYCLES_LIMIT }),
                None => None,
            },
        ),
    }
}

/// The action for a command (see `action_for`).
pub fn decide_command(cmd: SimCommand, ctx: CommandContext, publish_debug_events: bool) -> (a: CommandAction)
    ensures
        a == action_for(cmd, ctx, publish_debug_events),
{
    match cmd {
        SimCommand::Run => CommandAction::Resume,
        SimCommand::Step => CommandAction::StepOnce {
            trace: publish_debug_events || ctx == CommandContext::AwaitingInput,
            into_batch: ctx == CommandContext::InBatch,
        },
        SimCommand::Stop => CommandAction::Pause { end_batch: ctx == CommandContext::InBatch },
        SimCommand::Reset => CommandAction::ResetCpu { end_batch: ctx == CommandContext::InBatch },
        SimCommand::SetCyclesLimit(l) => CommandAction::SetLimit(clamp_cycles_limit(l)),
    }
}

/// Whether a run batch takes another step: fewer than `RUN_BATCH_STEPS`
/// steps taken, the processor not halted, the batch's cycles under the
/// budget, and the simulation still running.
pub fn batch_continues(steps: usize, halted: bool, batch_cycles: u64, budget: u64, running: bool) -> (b: bool)
    ensures
        b == (steps < RUN_BATCH_STEPS && !halted && batch_cycles < budget && running),
{
    steps < RUN_BATCH_STEPS && !halted && batch_cycles < budget && running
}

/// What follows a single step outside a batch: `report` says whether the
/// rate, the registers and memory, the halted state and the device
/// requests are reported (only when the simulation was idle), and
/// `running` whether it still runs afterwards (not when the step's read
/// of a key was cut short).
pub fn after_single_step(ctx: CommandContext, running: bool, input_aborted: bool) -> (r: (bool, bool))
    ensures
        r.0 == (ctx == CommandContext::Idle),
        r.1 == (running && !(ctx == CommandContext::Idle && input_aborted)),
{
    let report = ctx == CommandContext::Idle;
    (report, running && !(report && input_aborted))
}

/// `a + b`, or `u64::MAX` where that does not fit.
pub open spec fn saturating_sum(a: u64, b: u64) -> u64 {
    if a + b > u64::MAX {
        u64::MAX
    } else {
        (a + b) as u64
    }
}

/// Executes one instruction, adding its cycles to `cycles_since_report`
/// (saturating) and, when `emit_trace` holds and the I/O devices do not ask
/// to suppress it, its trace to `traces`. Gives `None`, doing nothing, when
/// the processor cannot take another step.
pub fn step_once(
    cpu: &mut Cpu,
    emit_trace: bool,
    cycles_since_report: &mut u64,
    traces: &mut Vec<InstructionTrace>,
) -> (r: Option<u64>)
    requires
        old(cpu).wf(),
    ensures
        final(cpu).wf(),
        !old(cpu)@.can_step() ==> r is None && *final(cpu) == *old(cpu) && *final(cycles_since_report) == *old(cycles_since_report) && final(traces)@ == old(traces)@,
        old(cpu)@.can_step() ==> (r matches Some(c) && c == old(cpu)@.step().1 && final(cpu)@.a
            == old(cpu)@.step().0.a && *final(cycles_since_report) == saturating_sum(
            *old(cycles_since_report),
            c,
        )),
        old(cpu)@.can_step() && !emit_trace ==> final(cpu)@ == old(cpu)@.step().0 && final(traces)@ == old(traces)@,
        old(cpu)@.can_step() && emit_trace ==> ({
            let st = old(cpu)@.step().0;
            &&& final(cpu)@ == (CpuModel { io: IoModel { trace_suppress: false, ..st.io }, ..st })
            &&& st.io.trace_suppress ==> final(traces)@ == old(traces)@
            &&& !st.io.trace_suppress ==> final(traces)@.len() == old(traces)@.len() + 1
                && final(traces)@.take(old(traces)@.len() as int) == old(traces)@
                && final(traces)@.last().address == old(cpu)@.pc
                && final(traces)@.last().text@ == deassemble_spec(
                old(cpu)@.mem[old(cpu)@.pc as int],
                old(cpu)@.mem[wrap16(old(cpu)@.pc + 1) as int],
                old(cpu)@.mem[wrap16(old(cpu)@.pc + 2) as int],
            )
        }),
{
    if !cpu.can_step() {
        return None;
    }
    if emit_trace {
        let (cycles, trace) = cpu.step_with_trace();
        let ghost before = traces@;
        if !cpu.io.take_trace_suppress() {
            traces.push(trace);
            proof {
                assert(traces@.take(before.len() as int) =~= before);
            }
        }
        *cycles_since_report = cycles_since_report.saturating_add(cycles);
        Some(cycles)
    } else {
        let cycles = cpu.step_with_cycles();
        *cycles_since_report = cycles_since_report.saturating_add(cycles);
        Some(cycles)
    }
}

/// The event for the traces of some steps: none for none, one trace
/// alone, or a batch.
pub fn trace_event(traces: Vec<InstructionTrace>) -> (e: Option<SimulationEvent>)
    ensures
        traces@.len() == 0 ==> e is None,
        traces@.len() == 1 ==> (e matches Some(SimulationEvent::Trace(t)) && t == traces@[0]),
        traces@.len() > 1 ==> (e matches Some(SimulationEvent::TraceBatch(b)) && b@ == traces@),
{
    if traces.len() == 0 {
        None
    } else if traces.len() == 1 {
        let mut traces = traces;
        let t = traces.pop().unwrap();
        Some(SimulationEvent::Trace(t))
    } else {
        Some(SimulationEvent::TraceBatch(traces))
    }
}

/// Reports a change of the halted state since `last_halted`.
pub fn halted_event(cpu: &Cpu, last_halted: &mut bool, events: &mut Vec<SimulationEvent>)
    ensures
        *final(last_halted) == cpu@.halted,
        cpu@.halted == *old(last_halted) ==> final(events)@ == old(events)@,
        cpu@.halted != *old(last_halted) ==> final(events)@.len() == old(events)@.len() + 1
            && final(events)@.last() == SimulationEvent::Halted(cpu@.halted),
{
    let halted = cpu.is_halted();
    if halted != *last_halted {
        events.push(SimulationEvent::Halted(halted));
        *last_halted = halted;
    }
}

/// Reports the registers and the memory, when debug events are published.
pub fn snapshot_events(cpu: &Cpu, publish_debug_events: bool, events: &mut Vec<SimulationEvent>)
    ensures
        final(events)@.take(old(events)@.len() as int) == old(events)@,
        !publish_debug_events ==> final(events)@ == old(events)@,
        publish_debug_events ==> final(events)@.len() == old(events)@.len() + 2
            && final(events)@[old(events)@.len() as int] == SimulationEvent::CpuState(state_of(cpu@))
            && (final(events)@.last() matches SimulationEvent::MemorySnapshot(m) && m@ == cpu@.mem),
{
    if !publish_debug_events {
        proof {
            assert(events@.take(events@.len() as int) =~= events@);
        }
        return ;
    }
    let ghost before = events@;
    events.push(SimulationEvent::CpuState(cpu.snapshot()));
    events.push(SimulationEvent::MemorySnapshot(cpu.memory_snapshot()));
    proof {
        assert(events@.take(before.len() as int) =~= before);
    }
}

/// The requests of the I/O devices that are reported, in order: output
/// and input-status changes (a request to empty the key queue is not).
pub open spec fn reported_requests(reqs: Seq<IoEventModel>) -> Seq<IoEventModel>
    decreases reqs.len(),
{
    if reqs.len() == 0 {
        Seq::empty()
    } else {
        let rest = reported_requests(reqs.drop_last());
        if reqs.last() is DrainInput {
            rest
        } else {
            rest.push(reqs.last())
        }
    }
}

/// Whether event `e` reports the I/O request `m`.
pub open spec fn reports_request(e: SimulationEvent, m: IoEventModel) -> bool {
    match (e, m) {
        (SimulationEvent::Output(o), IoEventModel::Output(om)) => o@ == om,
        (SimulationEvent::InputStatus(a), IoEventModel::InputStatus(b)) => a == b,
        _ => false,
    }
}

/// `added` reports the requests `reqs`, one event for each, in order.
pub open spec fn reports_all(added: Seq<SimulationEvent>, reqs: Seq<IoEventModel>) -> bool {
    &&& added.len() == reqs.len()
    &&& forall|k: int| 0 <= k < added.len() ==> reports_request(#[trigger] added[k], reqs[k])
}

/// Moves the requests of the I/O devices into events: output and
/// input-status changes in order (see `reported_requests`). Gives whether
/// one of them asked to empty the queue of keys.
pub fn io_events(cpu: &mut Cpu, events: &mut Vec<SimulationEvent>) -> (drain: bool)
    requires
        old(cpu).wf(),
    ensures
        final(cpu).wf(),
        final(cpu)@ == (CpuModel { io: IoModel { events: Seq::empty(), ..old(cpu)@.io }, ..old(cpu)@ }),
        final(events)@.take(old(events)@.len() as int) == old(events)@,
        reports_all(
            final(events)@.skip(old(events)@.len() as int),
            reported_requests(old(cpu)@.io.events),
        ),
        drain == exists|k: int|
            0 <= k < old(cpu)@.io.events.len() && #[trigger] old(cpu)@.io.events[k] is DrainInput,
{
    let mut requests = cpu.io.take_events();
    let ghost reqs = old(cpu)@.io.events;
    let ghost start = events@;
    let mut drain = false;
    let mut i: usize = 0;
    proof {
        assert(reqs.take(0) =~= Seq::<IoEventModel>::empty());
        assert(events@.skip(start.len() as int) =~= Seq::<SimulationEvent>::empty());
        assert(events@.take(start.len() as int) =~= start);
    }
    let n = requests.len();
    while i < n
        invariant
            n == reqs.len(),
            i <= n,
            requests@.len() == n - i,
            forall|k: int| 0 <= k < n - i ==> (#[trigger] requests@[k])@ == reqs[k + i],
            events@.take(start.len() as int) == start,
            events@.len() >= start.len(),
            reports_all(events@.skip(start.len() as int), reported_requests(reqs.take(i as int))),
            drain == exists|k: int| 0 <= k < i && #[trigger] reqs[k] is DrainInput,
        decreases n - i,
    {
        let ghost before = events@;
        let ghost old_requests = requests@;
        let req = requests.remove(0);
        proof {
            assert(req@ == reqs[i as int]);
            assert(reqs.take(i + 1).drop_last() =~= reqs.take(i as int));
            assert(reqs.take(i + 1).last() == reqs[i as int]);
            assert forall|k: int| 0 <= k < n - i - 1 implies (#[trigger] requests@[k])@ == reqs[k + i + 1] by {
                assert(requests@[k] == old_requests[k + 1]);
            }
        }
        match req {
            IoEvent::Output(o) => {
                events.push(SimulationEvent::Output(o));
            },
            IoEvent::InputStatus(w) => {
                events.push(SimulationEvent::InputStatus(w));
            },
            IoEvent::DrainInput => {
                drain = true;
            },
        }
        proof {
            let added = events@.skip(start.len() as int);
            let old_added = before.skip(start.len() as int);
            if reqs[i as int] is DrainInput {
                assert(events@ == before);
            } else {
                assert(added =~= old_added.push(events@.last()));
                assert(events@.take(start.len() as int) =~= before.take(start.len() as int));
                let rep = reported_requests(reqs.take(i + 1));
                assert forall|k: int| 0 <= k < added.len() implies reports_request(
                    #[trigger] added[k],
                    rep[k],
                ) by {
                    if k < old_added.len() {
                        assert(added[k] == old_added[k]);
                    }
                }
            }
            if drain {
                if !(reqs[i as int] is DrainInput) {
                    let k = choose|k: int| 0 <= k < i && #[trigger] reqs[k] is DrainInput;
                    assert(0 <= k < i + 1 && reqs[k] is DrainInput);
                }
            } else {
                assert(!(reqs[i as int] is DrainInput));
            }
        }
        i = i + 1;
    }
    proof {
        assert(reqs.take(n as int) =~= reqs);
    }
    drain
}

/// Resets the processor for the simulation: the counted cycles start over
/// and the rate, the halted state and (for debugging) the registers and
/// memory are reported.
pub fn reset_cpu(
    cpu: &mut Cpu,
    publish_debug_events: bool,
    cycles_since_report: &mut u64,
    events: &mut Vec<SimulationEvent>,
)
    requires
        old(cpu).wf(),
    ensures
        final(cpu).wf(),
        final(cpu)@ == after_reset(old(cpu)@),
        *final(cycles_since_report) == 0,
        final(events)@.take(old(events)@.len() as int) == old(events)@,
        final(events)@.len() == old(events)@.len() + if publish_debug_events {
            4int
        } else {
            2int
        },
        final(events)@[old(events)@.len() as int] == SimulationEvent::CyclesPerSecond(0),
        final(events)@[old(events)@.len() as int + 1] == SimulationEvent::Halted(false),
        publish_debug_events ==> final(events)@[old(events)@.len() as int + 2] == SimulationEvent::CpuState(
            state_of(after_reset(old(cpu)@)),
        ) && (final(events)@.last() matches SimulationEvent::MemorySnapshot(m) && m@ == old(
            cpu,
        )@.mem),
{
    cpu.reset();
    *cycles_since_report = 0;
    events.push(SimulationEvent::CyclesPerSecond(0));
    events.push(SimulationEvent::Halted(cpu.is_halted()));
    let ghost mid = events@;
    snapshot_events(cpu, publish_debug_events, events);
    proof {
        assert(events@.take(mid.len() as int) == mid);
        assert(events@[old(events)@.len() as int] == events@.take(mid.len() as int)[old(events)@.len() as int]);
        assert(events@[old(events)@.len() as int + 1] == events@.take(mid.len() as int)[old(events)@.len() as int + 1]);
        assert(events@.take(old(events)@.len() as int) =~= mid.take(old(events)@.len() as int));
        assert(mid.take(old(events)@.len() as int) =~= old(events)@);
    }
}

} // verus!
