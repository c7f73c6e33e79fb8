//! Control of the stages of the node lifecycle, and the continue/exit
//! signal of the interactive shell around it.

use vstd::prelude::*;
use vstd::string::StringExecFns;

verus! {

/// Signal of the interactive shell: keep ticking or shut down.
#[derive(Debug, PartialEq, Eq, Structural)]
pub enum AppReturn {
    Exit,
    Continue,
}

/// Stage of the node lifecycle.
#[derive(Debug, PartialEq)]
pub enum State {
    Waiting { waiting_time: usize },
    Computing,
    Replicating,
    Done,
    Failure(String),
}

/// Event the lifecycle reacts to.
#[derive(Debug, Clone, Copy)]
pub enum Event {
    NothingHappened,
    TemporalMemoryInitialized,
}

/// The diagnostic a state/event pair that has no transition produces.
pub open spec fn mismatch_msg(s: State, e: Event) -> Seq<char> {
    "wrong state, event combination: "@ + s.name_spec() + " "@ + e.name_spec()
}

impl Event {
    /// The name of this event's variant.
    pub open spec fn name_spec(self) -> Seq<char> {
        match self {
            Event::NothingHappened => "NothingHappened"@,
            Event::TemporalMemoryInitialized => "TemporalMemoryInitialized"@,
        }
    }

    /// The name of this event's variant.
    pub fn name(&self) -> (r: &'static str)
        ensures
            r@ == self.name_spec(),
    {
        match self {
            Event::NothingHappened => "NothingHappened",
            Event::TemporalMemoryInitialized => "TemporalMemoryInitialized",
        }
    }
}

impl State {
    /// The name of this state's variant.
    pub open spec fn name_spec(self) -> Seq<char> {
        match self {
            State::Waiting { .. } => "Waiting"@,
            State::Computing => "Computing"@,
            State::Replicating => "Replicating"@,
            State::Done => "Done"@,
            State::Failure(_) => "Failure"@,
        }
    }

    /// The name of this state's variant.
    pub fn name(&self) -> (r: &'static str)
        ensures
            r@ == self.name_spec(),
    {
        match self {
            State::Waiting { .. } => "Waiting",
            State::Computing => "Computing",
            State::Replicating => "Replicating",
            State::Done => "Done",
            State::Failure(_) => "Failure",
        }
    }

    /// The lifecycle transition: waiting plus nothing happening keeps the
    /// node waiting one tick longer; every other state/event pair is a
    /// failure that names the pair.
    pub fn next(self, event: Event) -> (r: State)
        requires
            self matches State::Waiting { waiting_time } && event matches Event::NothingHappened
                ==> waiting_time < usize::MAX,
        ensures
            self matches State::Waiting { waiting_time } && event matches Event::NothingHappened
                ==> r == (State::Waiting { waiting_time: (waiting_time + 1) as usize }),
            !(self matches State::Waiting { .. } && event matches Event::NothingHappened) ==> {
                &&& r matches State::Failure(m)
                &&& ({
                    let m = r->Failure_0;
                    m@ == mismatch_msg(self, event)
                })
            },
    {
        match (self, event) {
            (State::Waiting { waiting_time }, Event::NothingHappened) => State::Waiting {
                waiting_time: waiting_time + 1,
            },
            (s, e) => {
                proof {
                    reveal_strlit("wrong state, event combination: ");
                    reveal_strlit(" ");
                }
                let mut m = String::new();
                m.append("wrong state, event combination: ");
                m.append(s.name());
                m.append(" ");
                m.append(e.name());
                proof {
                    assert(m@ =~= mismatch_msg(s, e));
                }
                State::Failure(m)
            },
        }
    }
}

} // verus!
