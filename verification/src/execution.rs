//! The execution controller: owns one instance of the opaque stack virtual
//! machine, runs it under step, time and growth guards, and supports
//! marker-based staged execution for external coordination.

use vstd::prelude::*;
use vstd::string::StrSliceExecFns;
use pushr::push::instructions::{InstructionCache, InstructionSet};
use pushr::push::interpreter::PushInterpreter;
use pushr::push::io::PushMessage;
use pushr::push::parser::PushParser;
use pushr::push::state::PushState;
use pushr::push::vector::{BoolVector, IntVector};
use std::time::{Duration, Instant};
use crate::source::{program_wf, validate_program};

verus! {

#[verifier::external_type_specification]
#[verifier::external_body]
pub struct ExPushState(PushState);

#[verifier::external_type_specification]
#[verifier::external_body]
pub struct ExInstructionSet(InstructionSet);

#[verifier::external_type_specification]
#[verifier::external_body]
pub struct ExInstructionCache(InstructionCache);

#[verifier::external_type_specification]
#[verifier::external_body]
pub struct ExInstant(Instant);

/// Relies on `PushState::new`: a fresh, empty virtual machine state.
pub assume_specification[ PushState::new ]() -> PushState;

/// Relies on `PushState::size`: the aggregate size of the machine's typed
/// stacks, the quantity the growth guard watches.
pub assume_specification[ PushState::size ](s: &PushState) -> usize;

/// Relies on `InstructionSet::new`: an empty instruction set.
pub assume_specification[ InstructionSet::new ]() -> InstructionSet;

/// Relies on `InstructionSet::load`: loads the default instruction set.
pub assume_specification[ InstructionSet::load ](s: &mut InstructionSet);

/// Relies on `InstructionSet::cache`: a snapshot of the loaded instruction
/// names.
pub assume_specification[ InstructionSet::cache ](s: &InstructionSet) -> InstructionCache;

/// Relies on `InstructionCache::new`: a cache holding the given names.
pub assume_specification[ InstructionCache::new ](list: Vec<String>) -> InstructionCache;

/// Relies on `PushInterpreter::step`: executes one instruction of the
/// loaded program; the result says whether the executable stack is now
/// empty. What the instruction itself does to the machine lies beyond
/// this boundary — and so does whether it returns at all: the machine's
/// instructions are unverified code, and one whose own work fails (an
/// arithmetic instruction that overflows its operand range, a spawned
/// command that cannot start) panics inside the call. No contract here
/// excludes that, since the machine state it depends on is opaque.
pub assume_specification[ PushInterpreter::step ](
    push_state: &mut PushState,
    instruction_set: &mut InstructionSet,
    icache: &InstructionCache,
) -> bool;

/// Relies on `PushParser::parse_program`: parses program text onto the
/// machine's executable stack; tokens it cannot place are ignored. The
/// parser cuts vector literals by byte position and counts list nesting
/// without a lower guard, so only text that `program_wf` admits is handed
/// to it.
pub assume_specification[ PushParser::parse_program ](
    push_state: &mut PushState,
    instruction_set: &InstructionSet,
    code: &str,
)
    requires
        crate::source::program_wf(code@),
;

/// Relies on `Instant::now`: the current point of the monotonic clock.
pub assume_specification[ Instant::now ]() -> Instant;

/// Relies on `Instant::elapsed`: the wall time that has passed since the
/// measured point.
pub assume_specification[ Instant::elapsed ](t: &Instant) -> Duration;

/// Relies on `Duration::as_millis`: the duration counted in whole
/// milliseconds.
pub assume_specification[ Duration::as_millis ](d: &Duration) -> u128;

/// Relies on `Duration`'s `Clone`: a copy of the duration value.
pub assume_specification[ <Duration as Clone>::clone ](d: &Duration) -> (r: Duration)
    ensures
        r == *d,
;

/// Relies on the `eval_push_limit` field of the machine's configuration:
/// the configured step limit.
#[verifier::external_body]
fn config_step_limit(state: &PushState) -> i32 {
    state.configuration.eval_push_limit
}

/// Relies on the `eval_time_limit` field of the machine's configuration:
/// the configured time limit in milliseconds.
#[verifier::external_body]
fn config_time_limit(state: &PushState) -> u64 {
    state.configuration.eval_time_limit
}

/// Relies on the `growth_cap` field of the machine's configuration: the
/// permitted per-step growth of the machine's aggregate size.
#[verifier::external_body]
fn config_growth_cap(state: &PushState) -> usize {
    state.configuration.growth_cap
}

/// Relies on `PushStack::get` and the display form of `Item`: the textual
/// form of the next pending instruction, if the executable stack holds one.
#[verifier::external_body]
fn next_instruction_text(state: &PushState) -> Option<String> {
    match state.exec_stack.get(0) {
        Some(item) => Some(item.to_string()),
        None => None,
    }
}

/// Relies on `PushBuffer::push`: wraps the bits in a message with an empty
/// header and enqueues it on the machine's inbound queue; the bounded
/// queue drops the message when it is full.
#[verifier::external_body]
fn vm_push_input(state: &mut PushState, input: Vec<bool>) {
    let header = IntVector::new(Vec::new());
    let body = BoolVector::new(input);
    state.input_stack.push(PushMessage::new(header, body));
}

/// Why a load call was refused.
#[derive(Clone, Copy, Debug, PartialEq, Eq, Structural)]
pub enum LoadError {
    MalformedProgram,
}

/// Terminal state of a supervised run: the machine either drained its
/// executable stack or tripped one of the three resource guards.
#[derive(Clone, Copy, Debug, PartialEq, Eq, Structural)]
pub enum PushInterpreterState {
    NoErrors,
    StepLimitExceeded,
    TimeLimitExceeded,
    GrowthCapExceeded,
}

/// A staged-execution record: the name of a marker the run passed, and the
/// wall time that passed since the previous marker.
#[derive(Clone, Debug)]
pub struct Breakpoint {
    pub duration: Duration,
    pub name: String,
}

impl Breakpoint {
    /// A record of the named marker reached after `arg_duration`.
    pub fn new(arg_name: String, arg_duration: Duration) -> (r: Self)
        ensures
            r.name == arg_name,
            r.duration == arg_duration,
    {
        Self { duration: arg_duration, name: arg_name }
    }
}

/// A marker name: breakpoints carry the reserved `"BP"` prefix.
pub open spec fn is_breakpoint_name(s: Seq<char>) -> bool {
    s.len() >= 2 && s[0] == 'B' && s[1] == 'P'
}

/// Whether the text carries the reserved breakpoint prefix.
pub fn has_breakpoint_prefix(s: &str) -> (r: bool)
    ensures
        r == is_breakpoint_name(s@),
{
    s.unicode_len() >= 2 && s.get_char(0) == 'B' && s.get_char(1) == 'P'
}

/// The number of step invocations a run with the given step limit may make
/// before the step guard trips: one more than the limit, and none at all
/// under a negative limit.
pub open spec fn step_budget(step_limit: i32) -> int {
    if step_limit < 0 {
        0
    } else {
        step_limit + 1
    }
}

/// The execution session: one virtual machine instance, its instruction
/// set and cache, the breakpoint records of staged execution, the clock
/// point of the last marker, and the step counter of the last run.
pub struct PushExecutor {
    pub push_state: PushState,
    pub instruction_set: InstructionSet,
    pub instruction_cache: InstructionCache,
    pub breakpoints: Vec<Breakpoint>,
    pub last_break_time: Instant,
    pub steps: u64,
}

impl PushExecutor {
    /// A fresh session: empty machine state, no instructions loaded, no
    /// breakpoints passed, no steps run.
    pub fn new() -> (r: Self)
        ensures
            r.breakpoints@.len() == 0,
            r.steps == 0,
    {
        Self {
            push_state: PushState::new(),
            instruction_set: InstructionSet::new(),
            instruction_cache: InstructionCache::new(Vec::new()),
            breakpoints: Vec::new(),
            last_break_time: Instant::now(),
            steps: 0,
        }
    }

    /// Loads the default instruction set and its dispatch cache. Loading
    /// rebuilds the same set, so a second call changes nothing the session
    /// observes.
    pub fn initialize(&mut self)
        ensures
            final(self).push_state == old(self).push_state,
            final(self).breakpoints == old(self).breakpoints,
            final(self).last_break_time == old(self).last_break_time,
            final(self).steps == old(self).steps,
    {
        self.instruction_set.load();
        self.instruction_cache = InstructionSet::cache(&self.instruction_set);
    }

    /// Parses program text onto the machine's executable stack. Must follow
    /// `initialize`, else the text's instruction tokens are not recognised.
    /// Malformed text fails the call and loads nothing: text the machine's
    /// parser cannot take whole is rejected before the parser sees it.
    pub fn load(&mut self, program: String) -> (r: Result<(), LoadError>)
        ensures
            r is Ok <==> program_wf(program@),
            final(self).instruction_set == old(self).instruction_set,
            final(self).instruction_cache == old(self).instruction_cache,
            final(self).breakpoints == old(self).breakpoints,
            final(self).last_break_time == old(self).last_break_time,
            final(self).steps == old(self).steps,
    {
        if !validate_program(program.as_str()) {
            return Err(LoadError::MalformedProgram);
        }
        PushParser::parse_program(&mut self.push_state, &self.instruction_set, program.as_str());
        Ok(())
    }

    /// Advances the machine by exactly one instruction; the result says
    /// whether the executable stack is now empty.
    pub fn step(&mut self) -> (r: bool)
        ensures
            final(self).instruction_cache == old(self).instruction_cache,
            final(self).breakpoints == old(self).breakpoints,
            final(self).last_break_time == old(self).last_break_time,
            final(self).steps == old(self).steps,
    {
        PushInterpreter::step(
            &mut self.push_state,
            &mut self.instruction_set,
            &self.instruction_cache,
        )
    }

    /// Runs the machine under the three guards the machine's own
    /// configuration sets. The terminal state is a returned value, never a
    /// fault; `steps` afterwards holds the number of step invocations the
    /// run made, which never passes the step budget. The guard values
    /// themselves come from the opaque configuration, so the guarantees
    /// relative to a known step limit live on `run_bounded`.
    pub fn run(&mut self) -> (r: PushInterpreterState)
        ensures
            final(self).instruction_cache == old(self).instruction_cache,
            final(self).breakpoints == old(self).breakpoints,
            final(self).last_break_time == old(self).last_break_time,
            final(self).steps <= 0x8000_0000u64,
            r == PushInterpreterState::NoErrors ==> final(self).steps >= 1,
            r == PushInterpreterState::GrowthCapExceeded ==> final(self).steps >= 1,
    {
        let step_limit = config_step_limit(&self.push_state);
        let time_limit_ms = config_time_limit(&self.push_state);
        let growth_cap = config_growth_cap(&self.push_state);
        self.run_bounded(step_limit, time_limit_ms, growth_cap)
    }

    /// Runs the machine under explicit guards: a step limit, a wall-time
    /// limit in milliseconds and a per-step growth cap on the machine's
    /// aggregate size. The run halts with `StepLimitExceeded` exactly when
    /// its step invocations exhaust the step budget, so it always
    /// terminates; `steps` afterwards holds the invocation count of this
    /// run. A negative step limit trips the step guard before any step;
    /// completion and a growth breach are only ever reported after the
    /// machine was actually stepped; the time guard can only fire while
    /// the step budget is not yet spent.
    pub fn run_bounded(&mut self, step_limit: i32, time_limit_ms: u64, growth_cap: usize) -> (r:
        PushInterpreterState)
        ensures
            final(self).instruction_cache == old(self).instruction_cache,
            final(self).breakpoints == old(self).breakpoints,
            final(self).last_break_time == old(self).last_break_time,
            final(self).steps <= step_budget(step_limit),
            r == PushInterpreterState::StepLimitExceeded ==> final(self).steps == step_budget(
                step_limit,
            ),
            step_limit < 0 ==> r == PushInterpreterState::StepLimitExceeded && final(self).steps
                == 0,
            r == PushInterpreterState::NoErrors ==> final(self).steps >= 1,
            r == PushInterpreterState::GrowthCapExceeded ==> final(self).steps >= 1,
            r == PushInterpreterState::TimeLimitExceeded ==> final(self).steps <= (if step_limit
                < 0 {
                0int
            } else {
                step_limit as int
            }),
    {
        let icache = InstructionSet::cache(&self.instruction_set);
        let start = Instant::now();
        let mut counter: u64 = 0;
        self.steps = 0;
        loop
            invariant
                counter <= step_budget(step_limit),
                self.steps == counter,
                self.instruction_cache == old(self).instruction_cache,
                self.breakpoints == old(self).breakpoints,
                self.last_break_time == old(self).last_break_time,
            decreases step_budget(step_limit) - counter,
        {
            if step_limit < 0 || counter > step_limit as u64 {
                return PushInterpreterState::StepLimitExceeded;
            }
            let elapsed = Instant::elapsed(&start);
            if Duration::as_millis(&elapsed) > time_limit_ms as u128 {
                return PushInterpreterState::TimeLimitExceeded;
            }
            let size_before = PushState::size(&self.push_state);
            let done = PushInterpreter::step(
                &mut self.push_state,
                &mut self.instruction_set,
                &icache,
            );
            counter = counter + 1;
            self.steps = counter;
            if done {
                return PushInterpreterState::NoErrors;
            }
            let size_after = PushState::size(&self.push_state);
            if size_after > size_before && size_after - size_before > growth_cap {
                return PushInterpreterState::GrowthCapExceeded;
            }
        }
    }

    /// Steps the machine until the next pending instruction textually
    /// equals `instruction`, or the machine drains its executable stack,
    /// whichever comes first. Every pending marker with the reserved
    /// breakpoint prefix is recorded on the way, with the wall time since
    /// the previous marker; the records already held are kept, in order,
    /// and only breakpoint-named records are appended. A defensive
    /// iteration bound, far beyond any reachable step count, keeps the
    /// call provably terminating.
    pub fn step_until(&mut self, instruction: String)
        ensures
            final(self).breakpoints@.len() >= old(self).breakpoints@.len(),
            forall|i: int|
                0 <= i < old(self).breakpoints@.len() ==> final(self).breakpoints@[i] == old(
                    self,
                ).breakpoints@[i],
            forall|i: int|
                old(self).breakpoints@.len() <= i < final(self).breakpoints@.len()
                    ==> is_breakpoint_name(final(self).breakpoints@[i].name@),
            final(self).instruction_cache == old(self).instruction_cache,
            final(self).steps == old(self).steps,
    {
        let mut fuel: u64 = u64::MAX;
        loop
            invariant
                self.steps == old(self).steps,
                self.instruction_cache == old(self).instruction_cache,
                self.breakpoints@.len() >= old(self).breakpoints@.len(),
                forall|i: int|
                    0 <= i < old(self).breakpoints@.len() ==> self.breakpoints@[i] == old(
                        self,
                    ).breakpoints@[i],
                forall|i: int|
                    old(self).breakpoints@.len() <= i < self.breakpoints@.len()
                        ==> is_breakpoint_name(self.breakpoints@[i].name@),
            decreases fuel,
        {
            if fuel == 0 {
                return;
            }
            fuel = fuel - 1;
            let done = PushInterpreter::step(
                &mut self.push_state,
                &mut self.instruction_set,
                &self.instruction_cache,
            );
            if done {
                return;
            }
            if let Some(next_instruction) = next_instruction_text(&self.push_state) {
                if has_breakpoint_prefix(next_instruction.as_str()) {
                    let elapsed = Instant::elapsed(&self.last_break_time);
                    self.breakpoints.push(Breakpoint::new(next_instruction.clone(), elapsed));
                    self.last_break_time = Instant::now();
                }
                if next_instruction == instruction {
                    return;
                }
            }
        }
    }

    /// Wraps a bit vector in a message with an empty header and enqueues it
    /// on the machine's inbound queue, for the program to consume on a
    /// later step. The inbound queue is bounded and drops the message when
    /// it is full.
    pub fn inject(&mut self, input: Vec<bool>)
        ensures
            final(self).instruction_set == old(self).instruction_set,
            final(self).instruction_cache == old(self).instruction_cache,
            final(self).breakpoints == old(self).breakpoints,
            final(self).last_break_time == old(self).last_break_time,
            final(self).steps == old(self).steps,
    {
        vm_push_input(&mut self.push_state, input);
    }
}

} // verus!
