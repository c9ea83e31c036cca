use slava::sock::AcceptStep;
use slava::sock::ReadStep;
use slava::sock::SetupStage;
use slava::sock::WriteOp;
use slava::sock::WriteStep;
use slava::sock::accept_decision;
use slava::sock::first_setup_failure;
use slava::sock::port_be_bytes;
use slava::sock::read_decision;
use slava::sock::would_block;

const EAGAIN: i32 = 11;
const EWOULDBLOCK: i32 = 140;
const ECONNRESET: i32 = 104;
const EPIPE: i32 = 32;

#[test]
fn would_block_accepts_either_errno() {
    assert!(would_block(EAGAIN, EAGAIN, EWOULDBLOCK));
    assert!(would_block(EWOULDBLOCK, EAGAIN, EWOULDBLOCK));
    assert!(!would_block(ECONNRESET, EAGAIN, EWOULDBLOCK));
}

#[test]
fn read_ready_with_count() {
    assert_eq!(read_decision(5, 0, EAGAIN, EWOULDBLOCK), ReadStep::Ready(5));
}

#[test]
fn read_of_nothing_completes_immediately_with_zero() {
    // A zero-length buffer (and likewise a peer EOF) reads zero bytes: the
    // operation is ready at once with 0, and nothing suspends.
    assert_eq!(read_decision(0, 0, EAGAIN, EWOULDBLOCK), ReadStep::Ready(0));
}

#[test]
fn read_suspends_on_would_block() {
    assert_eq!(
        read_decision(-1, EAGAIN, EAGAIN, EWOULDBLOCK),
        ReadStep::Suspend
    );
    assert_eq!(
        read_decision(-1, EWOULDBLOCK, EAGAIN, EWOULDBLOCK),
        ReadStep::Suspend
    );
}

#[test]
fn read_fails_on_hard_error() {
    assert_eq!(
        read_decision(-1, ECONNRESET, EAGAIN, EWOULDBLOCK),
        ReadStep::Fail(ECONNRESET)
    );
}

#[test]
fn accept_yields_new_fd() {
    assert_eq!(accept_decision(8, 0, EAGAIN), AcceptStep::Accepted(8));
}

#[test]
fn accept_suspends_only_on_eagain() {
    assert_eq!(accept_decision(-1, EAGAIN, EAGAIN), AcceptStep::Suspend);
    assert_eq!(
        accept_decision(-1, ECONNRESET, EAGAIN),
        AcceptStep::Fail(ECONNRESET)
    );
}

#[test]
fn write_whole_buffer_in_one_step() {
    let buf: Vec<u8> = b"hello".to_vec();
    let mut op = WriteOp::new();
    assert!(!op.finished(&buf));
    assert_eq!(
        op.write_step(&buf, 5, 0, EAGAIN, EWOULDBLOCK),
        WriteStep::Done(5)
    );
    assert!(op.finished(&buf));
}

#[test]
fn partial_writes_resume_at_offset_until_done() {
    let buf: Vec<u8> = b"hello".to_vec();
    let mut op = WriteOp::new();
    assert_eq!(
        op.write_step(&buf, 2, 0, EAGAIN, EWOULDBLOCK),
        WriteStep::Suspend
    );
    assert_eq!(op.written(), 2);
    assert_eq!(
        op.write_step(&buf, 3, 0, EAGAIN, EWOULDBLOCK),
        WriteStep::Done(5)
    );
    assert_eq!(op.written(), 5);
}

#[test]
fn write_would_block_makes_no_progress() {
    let buf: Vec<u8> = b"hi".to_vec();
    let mut op = WriteOp::new();
    assert_eq!(
        op.write_step(&buf, -1, EAGAIN, EAGAIN, EWOULDBLOCK),
        WriteStep::Suspend
    );
    assert_eq!(
        op.write_step(&buf, -1, EWOULDBLOCK, EAGAIN, EWOULDBLOCK),
        WriteStep::Suspend
    );
    assert_eq!(op.written(), 0);
}

#[test]
fn write_fails_on_hard_error() {
    let buf: Vec<u8> = b"hi".to_vec();
    let mut op = WriteOp::new();
    assert_eq!(
        op.write_step(&buf, -1, EPIPE, EAGAIN, EWOULDBLOCK),
        WriteStep::Fail(EPIPE)
    );
    assert_eq!(op.written(), 0);
}

#[test]
fn empty_write_is_finished_before_any_kernel_call() {
    // A zero-length buffer completes at once with 0 and never registers a
    // write waiter: it is finished from the start, and even a kernel call
    // that returns 0 reports completion rather than a suspension.
    let buf: Vec<u8> = Vec::new();
    let mut op = WriteOp::new();
    assert!(op.finished(&buf));
    assert_eq!(
        op.write_step(&buf, 0, 0, EAGAIN, EWOULDBLOCK),
        WriteStep::Done(0)
    );
}

#[test]
fn setup_reports_first_failing_stage() {
    assert_eq!(first_setup_failure(true, true, true, true, true), None);
    assert_eq!(
        first_setup_failure(false, true, true, true, true),
        Some(SetupStage::Socket)
    );
    assert_eq!(
        first_setup_failure(true, false, true, true, true),
        Some(SetupStage::Nonblock)
    );
    assert_eq!(
        first_setup_failure(true, true, false, true, true),
        Some(SetupStage::ReuseAddr)
    );
    assert_eq!(
        first_setup_failure(true, true, true, false, true),
        Some(SetupStage::Bind)
    );
    assert_eq!(
        first_setup_failure(true, true, true, true, false),
        Some(SetupStage::Listen)
    );
}

#[test]
fn port_bytes_are_network_order() {
    assert_eq!(port_be_bytes(8080), (31, 144));
    assert_eq!(port_be_bytes(0), (0, 0));
    assert_eq!(port_be_bytes(65535), (255, 255));
    assert_eq!(port_be_bytes(80), (0, 80));
}
