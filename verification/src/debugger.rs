use vstd::prelude::*;
use crate::breakpoint::{Breakpoint, Context};
use crate::user_instructions::UserInstruction;

verus! {

/// The raw number of the trap signal that a software breakpoint raises.
pub const SIGTRAP_SIGNAL: i32 = 5;

/// The session's observable state.
#[derive(Clone, Copy, PartialEq, Eq, Structural, Debug)]
pub enum SessionState {
    Running,
    Stopped,
    Exited,
}

/// One wait result on the child, reduced to plain values; `signal` is the
/// raw signal number that stopped it.
#[derive(Clone, Copy, PartialEq, Eq, Structural, Debug)]
pub enum WaitEvent {
    Exited { code: i32 },
    Stopped { signal: i32 },
    Other,
}

/// How the control loop answers one wait result.
#[derive(Clone, Copy, PartialEq, Eq, Structural, Debug)]
pub enum StopClass {
    /// The child is gone: report the code and end the session.
    ExitNow { code: i32 },
    /// A trap: remove all breakpoints, then attribute the trap.
    TrapStop,
    /// Stopped by some other signal: report it raw and re-prompt.
    PlainStop { signal: i32 },
    /// Any other wait result: report it raw and re-prompt.
    UnknownStop,
}

/// Classifies a stop: an exit ends the session, a trap triggers the
/// breakpoint choreography, anything else is reported as it came.
pub fn classify_wait(event: &WaitEvent) -> (r: StopClass)
    ensures
        *event matches WaitEvent::Exited { code } ==> r == (StopClass::ExitNow { code }),
        *event matches WaitEvent::Stopped { signal } ==> r == (if signal == SIGTRAP_SIGNAL {
            StopClass::TrapStop
        } else {
            StopClass::PlainStop { signal }
        }),
        *event is Other ==> r == StopClass::UnknownStop,
{
    match *event {
        WaitEvent::Exited { code } => StopClass::ExitNow { code },
        WaitEvent::Stopped { signal } => {
            if signal == SIGTRAP_SIGNAL {
                StopClass::TrapStop
            } else {
                StopClass::PlainStop { signal }
            }
        },
        WaitEvent::Other => StopClass::UnknownStop,
    }
}

/// The session state that a classified stop leads to: terminal on an
/// exit, `Stopped` otherwise.
pub fn state_after_stop(class: &StopClass) -> (s: SessionState)
    ensures
        (class matches StopClass::ExitNow { .. }) ==> s == SessionState::Exited,
        !(class matches StopClass::ExitNow { .. }) ==> s == SessionState::Stopped,
{
    match *class {
        StopClass::ExitNow { .. } => SessionState::Exited,
        _ => SessionState::Stopped,
    }
}

/// How a trap stop is resolved. `hit` is the tracked breakpoint the trap
/// is attributed to, if any; `new_rip` is where the instruction pointer
/// must point before the operator is prompted.
pub struct TrapResolution {
    pub hit: Option<Breakpoint>,
    pub new_rip: u64,
}

/// Attributes a trap stopped at instruction pointer `rip`: the trap
/// instruction is one byte long, so the candidate breakpoint address is
/// `rip - 1`. On a hit the instruction pointer is rewound to the
/// breakpoint address, so the original instruction is re-executed intact;
/// otherwise it is left alone and the trap is reported generically.
pub fn resolve_trap(ctx: &Context, rip: u64) -> (r: TrapResolution)
    ensures
        (r.hit is Some) <==> (rip >= 1 && ctx.tracks((rip - 1) as u64)),
        r.hit matches Some(bp) ==> bp.address == (rip - 1) as u64 && r.new_rip == (rip
            - 1) as u64 && (exists|i: int|
            0 <= i < ctx.breakpoints@.len() && ctx.breakpoints@[i] == bp),
        r.hit is None ==> r.new_rip == rip,
{
    if rip == 0 {
        return TrapResolution { hit: None, new_rip: rip };
    }
    match ctx.find_by_address(rip - 1) {
        Some(bp) => TrapResolution { hit: Some(bp), new_rip: rip - 1 },
        None => TrapResolution { hit: None, new_rip: rip },
    }
}

/// Whether an instruction hands control back to the child, so the loop
/// must wait for the next stop after dispatching it.
pub fn is_resuming(instruction: &UserInstruction) -> (b: bool)
    ensures
        b <==> (*instruction == UserInstruction::ContinueUntilBreakpoint || *instruction
            == UserInstruction::SingleStep || *instruction == UserInstruction::ContinueUntilSyscall),
{
    match *instruction {
        UserInstruction::ContinueUntilBreakpoint => true,
        UserInstruction::SingleStep => true,
        UserInstruction::ContinueUntilSyscall => true,
        _ => false,
    }
}

/// One trace action of the resume choreography, to be carried out in
/// order against the child.
#[derive(Clone, Copy, PartialEq, Eq, Structural, Debug)]
pub enum ResumeAction {
    /// Single-step one instruction and wait for the step to land. It runs
    /// while breakpoints are uninstalled, so the original instruction at
    /// the stop address executes and the child cannot re-trap in place.
    StepClean,
    /// Re-install every tracked breakpoint.
    ApplyAll,
    /// Resume until the next signal.
    Continue,
    /// Resume until the next syscall boundary.
    ContinueSyscall,
}

/// The trace actions, in order, that carry out a resuming instruction:
/// step once over clean code, re-arm the breakpoints, then issue the
/// requested resume mode.
pub fn resume_plan(instruction: &UserInstruction) -> (plan: Vec<ResumeAction>)
    requires
        *instruction == UserInstruction::ContinueUntilBreakpoint || *instruction
            == UserInstruction::SingleStep || *instruction
            == UserInstruction::ContinueUntilSyscall,
    ensures
        *instruction == UserInstruction::ContinueUntilBreakpoint ==> plan@ =~= seq![
            ResumeAction::StepClean,
            ResumeAction::ApplyAll,
            ResumeAction::Continue,
        ],
        *instruction == UserInstruction::ContinueUntilSyscall ==> plan@ =~= seq![
            ResumeAction::StepClean,
            ResumeAction::ApplyAll,
            ResumeAction::ContinueSyscall,
        ],
        *instruction == UserInstruction::SingleStep ==> plan@ =~= seq![ResumeAction::StepClean],
{
    match *instruction {
        UserInstruction::ContinueUntilBreakpoint => {
            let mut plan: Vec<ResumeAction> = Vec::new();
            plan.push(ResumeAction::StepClean);
            plan.push(ResumeAction::ApplyAll);
            plan.push(ResumeAction::Continue);
            plan
        },
        UserInstruction::ContinueUntilSyscall => {
            let mut plan: Vec<ResumeAction> = Vec::new();
            plan.push(ResumeAction::StepClean);
            plan.push(ResumeAction::ApplyAll);
            plan.push(ResumeAction::ContinueSyscall);
            plan
        },
        _ => {
            let mut plan: Vec<ResumeAction> = Vec::new();
            plan.push(ResumeAction::StepClean);
            plan
        },
    }
}

} // verus!
