use reactor::EventControl;
use reactor::completion::CompletionSlot;
use reactor::reactor::{write_failure_control, Action, Command, ReactorState, SettleAction};
use reactor::registry::Registration;

fn callback_of(reg: &Registration) -> Option<u64> {
    match reg {
        Registration::Accept { callback } => Some(*callback),
        Registration::Read { callback } => Some(*callback),
        Registration::Write { .. } => None,
    }
}

#[test]
fn fresh_reactor_is_idle_and_running() {
    let r = ReactorState::new();
    assert!(!r.should_exit());
    assert_eq!(r.wait_timeout(0), None);
    assert!(r.on_ready(5).is_none());
}

#[test]
fn add_read_registers_and_dispatches_its_callback() {
    let mut r = ReactorState::new();
    let a = r.apply_command(Command::AddRead { fd: 7, callback: 42 }, 0);
    assert_eq!(a, Action::RegisterRead { fd: 7 });
    // Each readiness occurrence dispatches the registered callback, as long
    // as the callback keeps the registration.
    for _ in 0..3 {
        let reg = r.on_ready(7).expect("registered descriptor must dispatch");
        assert_eq!(callback_of(reg), Some(42));
        let s = r.settle(7, EventControl::KEEP);
        assert_eq!(s, SettleAction::Rearm { fd: 7, write_interest: false });
    }
}

#[test]
fn delete_stops_all_further_dispatch() {
    let mut r = ReactorState::new();
    r.apply_command(Command::AddRead { fd: 9, callback: 1 }, 0);
    assert!(r.on_ready(9).is_some());
    let s = r.settle(9, EventControl::DELETE);
    assert_eq!(s, SettleAction::Remove { fd: 9, completion: None });
    // The multiplexer may still report fd 9 ready: nothing dispatches.
    assert!(r.on_ready(9).is_none());
    assert_eq!(r.settle(9, EventControl::DELETE), SettleAction::Ignore);
    assert_eq!(r.settle(9, EventControl::KEEP), SettleAction::Ignore);
}

#[test]
fn accept_keeps_twice_then_deletes_on_third() {
    // An accept callback keeps its registration on the first two connection
    // attempts and deletes it on the third: exactly three invocations, and a
    // fourth attempt finds no registry entry and dispatches nothing.
    let mut r = ReactorState::new();
    let a = r.apply_command(Command::AddAccept { fd: 4, callback: 11 }, 0);
    assert_eq!(a, Action::RegisterRead { fd: 4 });
    let decisions = [EventControl::KEEP, EventControl::KEEP, EventControl::DELETE];
    let mut invocations = 0;
    for control in decisions {
        let reg = r.on_ready(4).expect("attempt must dispatch while registered");
        assert_eq!(callback_of(reg), Some(11));
        invocations += 1;
        r.settle(4, control);
    }
    assert_eq!(invocations, 3);
    // Fourth connection attempt: no invocation, no registry entry.
    assert!(r.on_ready(4).is_none());
}

#[test]
fn write_completion_becomes_ready_only_after_delete() {
    let mut r = ReactorState::new();
    let mut slot: CompletionSlot<u64> = CompletionSlot::new();
    let a = r.apply_command(
        Command::AddWrite { fd: 3, payload: b"abc".to_vec(), completion: 77 },
        0,
    );
    assert_eq!(a, Action::RegisterWrite { fd: 3 });
    assert!(!slot.is_ready());

    // First writability: two of three bytes go out; the registration stays.
    assert_eq!(r.pending_write(3).as_deref(), Some(b"abc".as_ref()));
    let c = r.record_write_progress(3, 2);
    assert_eq!(c, EventControl::KEEP);
    let s = r.settle(3, c);
    assert_eq!(s, SettleAction::Rearm { fd: 3, write_interest: true });
    assert!(!slot.is_ready());

    // Second writability: the last byte goes out; teardown names the cell.
    assert_eq!(r.pending_write(3).as_deref(), Some(b"c".as_ref()));
    let c = r.record_write_progress(3, 1);
    assert_eq!(c, EventControl::DELETE);
    let s = r.settle(3, c);
    assert_eq!(s, SettleAction::Remove { fd: 3, completion: Some(77) });
    if let SettleAction::Remove { completion: Some(_), .. } = s {
        slot.resolve(3);
    }
    assert!(slot.is_ready());
    assert_eq!(slot.value(), Some(&3));
    assert!(r.on_ready(3).is_none());
}

#[test]
fn schedule_fires_no_earlier_than_its_delay() {
    let mut r = ReactorState::new();
    let a = r.apply_command(Command::Schedule { callback: 9, delay: 10, completion: 44 }, 5);
    assert_eq!(a, Action::Idle);
    // Idle wait is bounded by the deadline, not a near-zero constant.
    assert_eq!(r.wait_timeout(5), Some(10));
    assert_eq!(r.wait_timeout(12), Some(3));
    // Before enqueue time + delay nothing fires.
    assert_eq!(r.pop_expired(14).len(), 0);
    // At the deadline the timer fires once, in order, and is gone.
    let fired = r.pop_expired(15);
    assert_eq!(fired.len(), 1);
    assert_eq!(fired[0].deadline, 15);
    assert_eq!(fired[0].callback, 9);
    assert_eq!(r.pop_expired(1000).len(), 0);
    assert_eq!(r.wait_timeout(16), None);
}

#[test]
fn schedule_completion_resolves_when_its_timer_fires() {
    // The completion cell a schedule hands back is resolved by the reactor
    // once the scheduled callback has fired: the fired entry names the very
    // cell the Schedule command carried.
    let mut r = ReactorState::new();
    let mut slot: CompletionSlot<u64> = CompletionSlot::new();
    r.apply_command(Command::Schedule { callback: 6, delay: 30, completion: 91 }, 10);
    assert!(!slot.is_ready());
    assert_eq!(r.pop_expired(39).len(), 0);
    assert!(!slot.is_ready());
    let fired = r.pop_expired(40);
    assert_eq!(fired.len(), 1);
    assert_eq!(fired[0].completion, 91);
    slot.resolve(0);
    assert!(slot.is_ready());
}

#[test]
fn write_failure_control_keeps_only_on_would_block() {
    assert_eq!(write_failure_control(true), EventControl::KEEP);
    assert_eq!(write_failure_control(false), EventControl::DELETE);
}

#[test]
fn execute_runs_inline_during_the_drain() {
    let mut r = ReactorState::new();
    let a = r.apply_command(Command::Execute { callback: 5 }, 0);
    assert_eq!(a, Action::RunCallback { callback: 5 });
    // Running inline leaves no registration and no timer behind.
    assert_eq!(r.wait_timeout(0), None);
}

#[test]
fn shutdown_latches_through_later_commands() {
    let mut r = ReactorState::new();
    assert!(!r.should_exit());
    let a = r.apply_command(Command::Shutdown, 0);
    assert_eq!(a, Action::Idle);
    assert!(r.should_exit());
    // Commands drained after the shutdown command do not clear the latch.
    r.apply_command(Command::AddRead { fd: 1, callback: 2 }, 0);
    r.settle(1, EventControl::KEEP);
    assert!(r.should_exit());
}

#[test]
fn drain_registrations_hands_every_descriptor_back_once() {
    let mut r = ReactorState::new();
    r.apply_command(Command::AddRead { fd: 10, callback: 1 }, 0);
    r.apply_command(Command::AddAccept { fd: 11, callback: 2 }, 0);
    r.apply_command(Command::AddWrite { fd: 12, payload: vec![0], completion: 3 }, 0);
    let mut fds = r.drain_registrations();
    fds.sort();
    assert_eq!(fds, vec![10, 11, 12]);
    for fd in [10, 11, 12] {
        assert!(r.on_ready(fd).is_none());
    }
    assert_eq!(r.drain_registrations(), Vec::<u64>::new());
}

#[test]
fn rearming_a_descriptor_replaces_its_registration() {
    // At most one registration per descriptor: a later watch command for the
    // same descriptor replaces the earlier one.
    let mut r = ReactorState::new();
    r.apply_command(Command::AddAccept { fd: 6, callback: 1 }, 0);
    r.apply_command(Command::AddRead { fd: 6, callback: 2 }, 0);
    let reg = r.on_ready(6).expect("descriptor stays registered");
    assert_eq!(callback_of(reg), Some(2));
    assert!(matches!(reg, Registration::Read { .. }));
}

#[test]
fn pending_write_tracks_progress_and_other_kinds_have_none() {
    let mut r = ReactorState::new();
    r.apply_command(Command::AddRead { fd: 1, callback: 2 }, 0);
    assert_eq!(r.pending_write(1), None);
    assert_eq!(r.pending_write(99), None);
    r.apply_command(Command::AddWrite { fd: 2, payload: b"hello".to_vec(), completion: 5 }, 0);
    assert_eq!(r.pending_write(2).as_deref(), Some(b"hello".as_ref()));
    assert_eq!(r.record_write_progress(2, 4), EventControl::KEEP);
    assert_eq!(r.pending_write(2).as_deref(), Some(b"o".as_ref()));
    assert_eq!(r.record_write_progress(2, 0), EventControl::KEEP);
    assert_eq!(r.record_write_progress(2, 1), EventControl::DELETE);
}

#[test]
fn empty_payload_write_is_complete_at_once() {
    let mut r = ReactorState::new();
    r.apply_command(Command::AddWrite { fd: 8, payload: Vec::new(), completion: 1 }, 0);
    assert_eq!(r.pending_write(8).as_deref(), Some(b"".as_ref()));
    assert_eq!(r.record_write_progress(8, 0), EventControl::DELETE);
    let s = r.settle(8, EventControl::DELETE);
    assert_eq!(s, SettleAction::Remove { fd: 8, completion: Some(1) });
}

#[test]
fn is_delete_distinguishes_the_controls() {
    assert!(EventControl::DELETE.is_delete());
    assert!(!EventControl::KEEP.is_delete());
}
