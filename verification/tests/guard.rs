use igni::address::Address;
use igni::error::Error;
use igni::guard::{with_writable_execute, Action, Event, Guard, Phase, PAGE_EXECUTE_READWRITE};

const READ_EXECUTE: u32 = 0x20;
const READ_WRITE_EXECUTE: u32 = PAGE_EXECUTE_READWRITE;

/// A host that keeps one protection value for the guarded range.
struct Host {
    flags: u32,
    refuse_widening: bool,
    refuse_restoring: bool,
    body: Result<(), Error>,
    protects: u32,
    bodies: u32,
    flags_during_body: Option<u32>,
}

impl Host {
    fn new(flags: u32) -> Host {
        Host {
            flags,
            refuse_widening: false,
            refuse_restoring: false,
            body: Ok(()),
            protects: 0,
            bodies: 0,
            flags_during_body: None,
        }
    }

    fn perform(&mut self, action: Action) -> Event {
        match action {
            Action::Protect { flags, .. } => {
                self.protects += 1;
                let refused = if self.protects == 1 {
                    self.refuse_widening
                } else {
                    self.refuse_restoring
                };
                if refused {
                    Event::ProtectFailed
                } else {
                    let previous = self.flags;
                    self.flags = flags;
                    Event::Protected { previous }
                }
            }
            Action::RunBody { .. } => {
                self.bodies += 1;
                self.flags_during_body = Some(self.flags);
                Event::BodyDone { result: self.body }
            }
            Action::Finish { .. } => unreachable!(),
        }
    }

    fn drive(&mut self, start: (Guard, Action)) -> Result<(), Error> {
        let (mut guard, mut action) = start;
        loop {
            if let Action::Finish { result } = action {
                assert!(guard.finished());
                return result;
            }
            assert!(!guard.finished());
            let event = self.perform(action);
            let next = guard.step(event);
            guard = next.0;
            action = next.1;
        }
    }
}

#[test]
fn guard_asks_for_write_and_execute_first() {
    let at = Address::new(0x1400_1000);
    let (guard, action) = with_writable_execute(at, 14);
    assert_eq!(guard, Guard { address: at, len: 14, phase: Phase::Widening });
    assert_eq!(action, Action::Protect { address: at, len: 14, flags: READ_WRITE_EXECUTE });
    assert_eq!(READ_WRITE_EXECUTE, 0x40);
}

#[test]
fn guard_runs_the_body_then_restores_what_was_reported() {
    let at = Address::new(0x1400_1000);
    let (guard, _) = with_writable_execute(at, 14);
    let (guard, action) = guard.step(Event::Protected { previous: READ_EXECUTE });
    assert_eq!(guard.phase, Phase::Running { saved: READ_EXECUTE });
    assert_eq!(action, Action::RunBody { address: at, len: 14 });
    let (guard, action) = guard.step(Event::BodyDone { result: Ok(()) });
    assert_eq!(guard.phase, Phase::Restoring { saved: READ_EXECUTE, body: Ok(()) });
    assert_eq!(action, Action::Protect { address: at, len: 14, flags: READ_EXECUTE });
    let (guard, action) = guard.step(Event::Protected { previous: READ_WRITE_EXECUTE });
    assert_eq!(guard.phase, Phase::Finished { result: Ok(()) });
    assert_eq!(action, Action::Finish { result: Ok(()) });
    assert!(guard.finished());
}

#[test]
fn guard_gives_up_before_the_body_when_widening_is_refused() {
    let (guard, _) = with_writable_execute(Address::new(0x2000), 14);
    let (guard, action) = guard.step(Event::ProtectFailed);
    assert_eq!(action, Action::Finish { result: Err(Error::OsProtectionError) });
    assert_eq!(guard.phase, Phase::Finished { result: Err(Error::OsProtectionError) });
}

#[test]
fn guard_restores_even_when_the_body_fails() {
    let at = Address::new(0x2000);
    let (guard, _) = with_writable_execute(at, 8);
    let (guard, _) = guard.step(Event::Protected { previous: 0x02 });
    let (guard, action) = guard.step(Event::BodyDone { result: Err(Error::EncodingError) });
    assert_eq!(action, Action::Protect { address: at, len: 8, flags: 0x02 });
    let (_, action) = guard.step(Event::Protected { previous: READ_WRITE_EXECUTE });
    assert_eq!(action, Action::Finish { result: Err(Error::EncodingError) });
}

#[test]
fn guard_reports_a_refused_restoring() {
    let (guard, _) = with_writable_execute(Address::new(0x2000), 8);
    let (guard, _) = guard.step(Event::Protected { previous: 0x02 });
    let (guard, _) = guard.step(Event::BodyDone { result: Ok(()) });
    let (_, action) = guard.step(Event::ProtectFailed);
    assert_eq!(action, Action::Finish { result: Err(Error::OsProtectionError) });
}

#[test]
fn guard_refuses_an_empty_or_wrapping_range() {
    let (guard, action) = with_writable_execute(Address::new(0x2000), 0);
    assert!(guard.finished());
    assert_eq!(action, Action::Finish { result: Err(Error::OsProtectionError) });
    let (guard, action) = with_writable_execute(Address::new(u64::MAX - 12), 14);
    assert!(guard.finished());
    assert_eq!(action, Action::Finish { result: Err(Error::OsProtectionError) });
    let (guard, action) = with_writable_execute(Address::new(u64::MAX - 13), 14);
    assert!(!guard.finished());
    assert_eq!(
        action,
        Action::Protect { address: Address::new(u64::MAX - 13), len: 14, flags: 0x40 }
    );
}

#[test]
fn guard_restores_when_a_report_makes_no_sense() {
    let at = Address::new(0x2000);
    let (guard, _) = with_writable_execute(at, 8);
    let (guard, _) = guard.step(Event::Protected { previous: 0x04 });
    let (guard, action) = guard.step(Event::ProtectFailed);
    assert_eq!(action, Action::Protect { address: at, len: 8, flags: 0x04 });
    let (_, action) = guard.step(Event::Protected { previous: 0x40 });
    assert_eq!(action, Action::Finish { result: Err(Error::OsProtectionError) });
    let (guard, _) = with_writable_execute(at, 8);
    let (_, action) = guard.step(Event::BodyDone { result: Ok(()) });
    assert_eq!(action, Action::Finish { result: Err(Error::OsProtectionError) });
}

#[test]
fn guard_that_has_finished_stays_finished() {
    let (guard, _) = with_writable_execute(Address::new(0x2000), 8);
    let (guard, _) = guard.step(Event::ProtectFailed);
    let (again, action) = guard.step(Event::Protected { previous: 0x20 });
    assert_eq!(again, guard);
    assert_eq!(action, Action::Finish { result: Err(Error::OsProtectionError) });
}

#[test]
fn protection_is_what_it_was_after_a_successful_body() {
    let mut host = Host::new(READ_EXECUTE);
    let result = host.drive(with_writable_execute(Address::new(0x5000), 14));
    assert_eq!(result, Ok(()));
    assert_eq!(host.flags, READ_EXECUTE);
    assert_eq!(host.flags_during_body, Some(READ_WRITE_EXECUTE));
    assert_eq!(host.bodies, 1);
    assert_eq!(host.protects, 2);
}

#[test]
fn protection_is_what_it_was_after_a_failed_body() {
    let mut host = Host::new(0x02);
    host.body = Err(Error::PatternNotFound);
    let result = host.drive(with_writable_execute(Address::new(0x5000), 14));
    assert_eq!(result, Err(Error::PatternNotFound));
    assert_eq!(host.flags, 0x02);
    assert_eq!(host.flags_during_body, Some(READ_WRITE_EXECUTE));
    assert_eq!(host.protects, 2);
}

#[test]
fn nothing_is_written_when_widening_is_refused() {
    let mut host = Host::new(0x02);
    host.refuse_widening = true;
    let result = host.drive(with_writable_execute(Address::new(0x5000), 14));
    assert_eq!(result, Err(Error::OsProtectionError));
    assert_eq!(host.flags, 0x02);
    assert_eq!(host.bodies, 0);
    assert_eq!(host.protects, 1);
}

#[test]
fn a_refused_restoring_is_an_error_of_the_whole() {
    let mut host = Host::new(0x02);
    host.refuse_restoring = true;
    let result = host.drive(with_writable_execute(Address::new(0x5000), 14));
    assert_eq!(result, Err(Error::OsProtectionError));
    assert_eq!(host.bodies, 1);
    assert_eq!(host.flags, READ_WRITE_EXECUTE);
}
