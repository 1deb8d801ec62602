//! The protection guard: write and execute permission over a range for as
//! long as a body runs, and the previous permission afterwards.
//!
//! The guard changes nothing itself. It says what is to be done next, is
//! told what came of it, and decides from that. Whoever drives it performs
//! each `Action` and hands back the `Event`, until the action is `Finish`.

use crate::address::Address;
use crate::error::Error;
use vstd::prelude::*;

verus! {

/// The protection value that allows reading, writing and executing.
pub const PAGE_EXECUTE_READWRITE: u32 = 0x40;

/// What the driver is to do next.
#[derive(Clone, Copy, Debug, PartialEq, Eq)]
pub enum Action {
    /// Set the protection of the `len` bytes at `address` to `flags`, and
    /// report the protection they had before.
    Protect { address: Address, len: u64, flags: u32 },
    /// Run the body on the `len` bytes at `address`, which are writable now.
    RunBody { address: Address, len: u64 },
    /// Nothing more is to be done; this is how the whole ended.
    Finish { result: Result<(), Error> },
}

/// What came of the last action.
#[derive(Clone, Copy, Debug, PartialEq, Eq)]
pub enum Event {
    /// The protection was set; `previous` is what the range had before.
    Protected { previous: u32 },
    /// The protection change was refused and nothing was changed.
    ProtectFailed,
    /// The body has run, and this is how it ended.
    BodyDone { result: Result<(), Error> },
}

/// Where the guard stands.
#[derive(Clone, Copy, Debug, PartialEq, Eq)]
pub enum Phase {
    /// Write and execute permission has been asked for.
    Widening,
    /// The body is running; `saved` is the protection to go back to.
    Running { saved: u32 },
    /// The previous protection has been asked for; `body` is how the body
    /// ended.
    Restoring { saved: u32, body: Result<(), Error> },
    /// All is done.
    Finished { result: Result<(), Error> },
}

/// A guard over the `len` bytes at `address`.
#[derive(Clone, Copy, Debug, PartialEq, Eq)]
pub struct Guard {
    pub address: Address,
    pub len: u64,
    pub phase: Phase,
}

/// Whether the `len` bytes at `address` are a range that can be protected:
/// not empty, and below the end of the address space.
pub open spec fn valid_range(address: Address, len: u64) -> bool {
    0 < len && address@ + len <= u64::MAX + 1
}

/// The guard over a range in its first state, with the first action.
pub open spec fn spec_begin(address: Address, len: u64) -> (Guard, Action) {
    if valid_range(address, len) {
        (
            Guard { address, len, phase: Phase::Widening },
            Action::Protect { address, len, flags: PAGE_EXECUTE_READWRITE },
        )
    } else {
        (
            Guard { address, len, phase: Phase::Finished { result: Err(Error::OsProtectionError) } },
            Action::Finish { result: Err(Error::OsProtectionError) },
        )
    }
}

impl Guard {
    /// The state that follows on `event`, and the action that goes with it.
    pub open spec fn spec_step(self, event: Event) -> (Guard, Action) {
        let refused: Result<(), Error> = Err(Error::OsProtectionError);
        match self.phase {
            Phase::Widening => match event {
                Event::Protected { previous } => (
                    Guard { phase: Phase::Running { saved: previous }, ..self },
                    Action::RunBody { address: self.address, len: self.len },
                ),
                _ => (
                    Guard { phase: Phase::Finished { result: refused }, ..self },
                    Action::Finish { result: refused },
                ),
            },
            Phase::Running { saved } => {
                let body = match event {
                    Event::BodyDone { result } => result,
                    _ => refused,
                };
                (
                    Guard { phase: Phase::Restoring { saved, body }, ..self },
                    Action::Protect { address: self.address, len: self.len, flags: saved },
                )
            },
            Phase::Restoring { saved, body } => {
                let result = match event {
                    Event::Protected { .. } => body,
                    _ => refused,
                };
                (Guard { phase: Phase::Finished { result }, ..self }, Action::Finish { result })
            },
            Phase::Finished { result } => (self, Action::Finish { result }),
        }
    }

    /// Whether the guard has come to its end.
    pub open spec fn spec_finished(self) -> bool {
        self.phase is Finished
    }

    #[verifier::when_used_as_spec(spec_finished)]
    pub fn finished(self) -> (r: bool)
        ensures
            r == self.spec_finished(),
    {
        match self.phase {
            Phase::Finished { .. } => true,
            _ => false,
        }
    }

    /// Takes the report of the last action and decides what follows.
    ///
    /// A refused widening ends the guard at once, before anything was
    /// written. Once the widening was granted the previous protection is
    /// asked for again whatever the body reports, and the body's own result
    /// is the result of the whole unless that restoring is refused.
    pub fn step(self, event: Event) -> (next: (Guard, Action))
        ensures
            next == self.spec_step(event),
    {
        let refused: Result<(), Error> = Err(Error::OsProtectionError);
        match self.phase {
            Phase::Widening => match event {
                Event::Protected { previous } => (
                    Guard {
                        address: self.address,
                        len: self.len,
                        phase: Phase::Running { saved: previous },
                    },
                    Action::RunBody { address: self.address, len: self.len },
                ),
                _ => (
                    Guard {
                        address: self.address,
                        len: self.len,
                        phase: Phase::Finished { result: refused },
                    },
                    Action::Finish { result: refused },
                ),
            },
            Phase::Running { saved } => {
                let body = match event {
                    Event::BodyDone { result } => result,
                    _ => refused,
                };
                (
                    Guard {
                        address: self.address,
                        len: self.len,
                        phase: Phase::Restoring { saved, body },
                    },
                    Action::Protect { address: self.address, len: self.len, flags: saved },
                )
            },
            Phase::Restoring { saved, body } => {
                let result = match event {
                    Event::Protected { .. } => body,
                    _ => refused,
                };
                (
                    Guard { address: self.address, len: self.len, phase: Phase::Finished { result } },
                    Action::Finish { result },
                )
            },
            Phase::Finished { result } => (self, Action::Finish { result }),
        }
    }
}

/// Opens a guard over the `len` bytes at `address`. The first action asks
/// for read, write and execute permission; a range that is empty or reaches
/// beyond the address space is refused at once.
pub fn with_writable_execute(address: Address, len: u64) -> (start: (Guard, Action))
    ensures
        start == spec_begin(address, len),
{
    if len > 0 && len - 1 <= u64::MAX - address.value() {
        (
            Guard { address, len, phase: Phase::Widening },
            Action::Protect { address, len, flags: PAGE_EXECUTE_READWRITE },
        )
    } else {
        (
            Guard { address, len, phase: Phase::Finished { result: Err(Error::OsProtectionError) } },
            Action::Finish { result: Err(Error::OsProtectionError) },
        )
    }
}

/// Whether the host can report `event` of `action` on a range whose
/// protection is `flags`: a granted change reports the protection that was
/// there, and a body reports that it has run.
pub open spec fn reports(flags: u32, action: Action, event: Event) -> bool {
    match action {
        Action::Protect { .. } => match event {
            Event::Protected { previous } => previous == flags,
            Event::ProtectFailed => true,
            Event::BodyDone { .. } => false,
        },
        Action::RunBody { .. } => event is BodyDone,
        Action::Finish { .. } => false,
    }
}

/// The protection of the range after the host carried out `action` and
/// reported `event`: a granted change sets it, and nothing else touches it.
pub open spec fn flags_after(flags: u32, action: Action, event: Event) -> u32 {
    match (action, event) {
        (Action::Protect { flags: set, .. }, Event::Protected { .. }) => set,
        _ => flags,
    }
}

/// Where a guard and the protection of its range stand after the host has
/// answered the guard's actions, one after the other, with `events`; nothing
/// where one of the events is no report of the action it answers.
pub open spec fn run(guard: Guard, action: Action, flags: u32, events: Seq<Event>) -> Option<
    (Guard, Action, u32),
>
    decreases events.len(),
{
    if events.len() == 0 {
        Some((guard, action, flags))
    } else if !reports(flags, action, events[0]) {
        None
    } else {
        let next = guard.spec_step(events[0]);
        run(next.0, next.1, flags_after(flags, action, events[0]), events.drop_first())
    }
}

/// Whether, in a run from the beginning, the host refused to set the
/// previous protection again: the third report is the one of the restoring.
pub open spec fn restore_refused(events: Seq<Event>) -> bool {
    events.len() >= 3 && events[2] is ProtectFailed
}

/// Whatever the host reports, a guard that has come to its end leaves the
/// range with the protection it had before, unless the host refused to set
/// that protection again. The body is asked for only while the range allows
/// writing and executing, and never after a refused widening. No run takes
/// more than three reports.
pub proof fn lemma_protection_restored(address: Address, len: u64, before: u32, events: Seq<Event>)
    ensures
        match run(spec_begin(address, len).0, spec_begin(address, len).1, before, events) {
            Some((guard, action, flags)) => {
                &&& events.len() <= 3
                &&& guard.phase is Finished <==> action is Finish
                &&& action is RunBody ==> flags == PAGE_EXECUTE_READWRITE && events.len() == 1
                &&& action is Finish && !restore_refused(events) ==> flags == before
                &&& events.len() == 3 && !restore_refused(events) ==> events[1] == (Event::BodyDone {
                    result: action->result,
                })
            },
            None => true,
        },
{
    reveal_with_fuel(run, 5);
    let start = spec_begin(address, len);
    if events.len() >= 1 {
        let first = start.0.spec_step(events[0]);
        let rest = events.drop_first();
        if rest.len() >= 1 {
            let second = first.0.spec_step(rest[0]);
            let last = rest.drop_first();
            if last.len() >= 1 {
                assert(second.0.spec_step(last[0]).1 is Finish);
            }
        }
    }
}

} // verus!
