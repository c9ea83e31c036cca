use slava::reactor::DrainAction;
use slava::reactor::PollEntry;
use slava::reactor::PollVerdict;
use slava::reactor::Reactor;
use slava::reactor::drain_action;
use slava::reactor::poll_verdict;

const EAGAIN: i32 = 11;
const EWOULDBLOCK: i32 = 140;
const EINTR: i32 = 4;
const ECONNRESET: i32 = 104;

#[test]
fn register_then_take_read_waiter() {
    let mut r: Reactor<u64> = Reactor::new();
    r.register_read(5, 11);
    assert_eq!(r.take_read_waiter(5), Some(11));
    assert_eq!(r.take_read_waiter(5), None);
}

#[test]
fn reregistration_overwrites_single_waiter() {
    let mut r: Reactor<u64> = Reactor::new();
    r.register_read(5, 1);
    r.register_read(5, 2);
    assert_eq!(r.take_read_waiter(5), Some(2));
    assert_eq!(r.take_read_waiter(5), None);
    assert_eq!(r.waiter_count(), 0);
}

#[test]
fn directions_are_independent() {
    let mut r: Reactor<u64> = Reactor::new();
    r.register_read(5, 1);
    r.register_write(5, 2);
    assert_eq!(r.waiter_count(), 2);
    assert_eq!(r.take_read_waiter(5), Some(1));
    assert_eq!(r.take_write_waiter(5), Some(2));
}

#[test]
fn dispatch_fires_both_directions_once() {
    let mut r: Reactor<u64> = Reactor::new();
    r.register_read(7, 1);
    r.register_write(7, 2);
    assert_eq!(r.dispatch(7, 0), (None, None));
    assert_eq!(r.dispatch(7, 1), (Some(1), Some(2)));
    assert_eq!(r.dispatch(7, 1), (None, None));
}

#[test]
fn dispatch_of_absent_fd_is_noop() {
    let mut r: Reactor<u64> = Reactor::new();
    r.register_read(7, 1);
    assert_eq!(r.dispatch(9, 1), (None, None));
    assert_eq!(r.take_read_waiter(7), Some(1));
}

#[test]
fn mark_closing_clears_waiters_before_close() {
    let mut r: Reactor<u64> = Reactor::new();
    r.register_read(4, 1);
    r.register_write(4, 2);
    r.mark_closing(4);
    assert_eq!(r.take_read_waiter(4), None);
    assert_eq!(r.take_write_waiter(4), None);
    assert_eq!(r.closing_snapshot(), vec![4]);
    r.finish_close(4);
    assert_eq!(r.closing_snapshot(), Vec::<i32>::new());
}

#[test]
fn mark_closing_twice_enrolls_once() {
    let mut r: Reactor<u64> = Reactor::new();
    r.mark_closing(4);
    r.mark_closing(4);
    assert_eq!(r.closing_snapshot(), vec![4]);
}

#[test]
fn accepted_then_dropped_stream_does_not_leak() {
    // A stream is accepted, a read waiter registered, and the stream dropped
    // before any data arrives: the waiter slot is cleared, the drain sweep
    // sees EOF on its probe and closes, and nothing of the FD remains.
    let fd = 6;
    let mut r: Reactor<u64> = Reactor::new();
    r.register_read(fd, 1);
    r.mark_closing(fd);
    assert_eq!(r.take_read_waiter(fd), None);
    assert_eq!(r.closing_snapshot(), vec![fd]);
    assert_eq!(drain_action(0, 0, EAGAIN, EWOULDBLOCK), DrainAction::CloseNow);
    r.finish_close(fd);
    assert_eq!(r.closing_snapshot(), Vec::<i32>::new());
    assert_eq!(r.waiter_count(), 0);
}

#[test]
fn poll_plan_lists_reads_then_writes() {
    let mut r: Reactor<u64> = Reactor::new();
    r.register_read(3, 1);
    r.register_write(4, 2);
    let plan = r.poll_plan();
    assert_eq!(
        plan,
        vec![
            PollEntry { fd: 3, wants_write: false },
            PollEntry { fd: 4, wants_write: true },
        ]
    );
}

#[test]
fn idle_exactly_when_no_waiters() {
    let mut r: Reactor<u64> = Reactor::new();
    assert_eq!(r.waiter_count(), 0);
    r.register_write(8, 1);
    assert_eq!(r.waiter_count(), 1);
}

#[test]
fn drain_action_keeps_draining_on_data() {
    assert_eq!(drain_action(5, 0, EAGAIN, EWOULDBLOCK), DrainAction::KeepOpen);
}

#[test]
fn drain_action_closes_on_eof() {
    assert_eq!(drain_action(0, 0, EAGAIN, EWOULDBLOCK), DrainAction::CloseNow);
}

#[test]
fn drain_action_waits_on_either_would_block_errno() {
    // The two would-block error numbers differ on some platforms; either one
    // alone must keep the descriptor enrolled for the next sweep.
    assert_eq!(
        drain_action(-1, EAGAIN, EAGAIN, EWOULDBLOCK),
        DrainAction::KeepOpen
    );
    assert_eq!(
        drain_action(-1, EWOULDBLOCK, EAGAIN, EWOULDBLOCK),
        DrainAction::KeepOpen
    );
}

#[test]
fn drain_action_closes_on_hard_error() {
    assert_eq!(
        drain_action(-1, ECONNRESET, EAGAIN, EWOULDBLOCK),
        DrainAction::CloseNow
    );
}

#[test]
fn poll_verdict_cases() {
    assert_eq!(poll_verdict(-1, EINTR, EINTR), PollVerdict::Retry);
    assert_eq!(poll_verdict(-1, 9, EINTR), PollVerdict::Fatal);
    assert_eq!(poll_verdict(0, 0, EINTR), PollVerdict::Quiet);
    assert_eq!(poll_verdict(3, 0, EINTR), PollVerdict::Dispatch);
}
