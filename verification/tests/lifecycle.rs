use iec104::admission::PermitPool;
use iec104::frame::{current_time_millis, process_data, MessagePackage};
use iec104::session::{Session, SessionEvent, TerminalReason};

#[test]
fn peer_close_ends_session() {
    let mut session = Session::new(64);
    let out = session.step(SessionEvent::PeerClosed);
    assert_eq!(out.terminal, Some(TerminalReason::PeerClosed));
    assert_eq!(out.frames.len(), 0);
}

#[test]
fn read_failure_ends_session() {
    let mut session = Session::new(64);
    let out = session.step(SessionEvent::ReadFailed);
    assert_eq!(out.terminal, Some(TerminalReason::IoError));
    assert_eq!(out.frames.len(), 0);
}

#[test]
fn idle_timeout_ends_session_and_frees_permit() {
    let mut pool = PermitPool::new(1);
    assert!(pool.try_acquire());
    assert!(!pool.try_acquire());

    let mut session = Session::new(64);
    let out = session.step(SessionEvent::TimedOut);
    assert_eq!(out.terminal, Some(TerminalReason::IdleTimeout));

    // The terminated session's permit goes back, admitting the next accept.
    pool.release();
    assert!(pool.try_acquire());
}

#[test]
fn unnumbered_frame_then_idle_timeout() {
    // One STARTDT activation, then silence past the deadline: exactly one
    // Unnumbered frame of length 6 comes out, then the session ends idle.
    let mut session = Session::new(1024);
    let out = session.step(SessionEvent::Data(vec![0x68, 0x04, 0x07, 0x00, 0x00, 0x00]));
    assert!(out.terminal.is_none());
    assert_eq!(out.frames.len(), 1);
    assert_eq!(out.frames[0].message.len(), 6);
    assert_eq!(out.frames[0].frame_type, "U-Frame");

    let out = session.step(SessionEvent::TimedOut);
    assert_eq!(out.terminal, Some(TerminalReason::IdleTimeout));
    assert_eq!(out.frames.len(), 0);
}

#[test]
fn admission_bound_holds() {
    let mut pool = PermitPool::new(2);
    assert_eq!(pool.limit(), 2);
    assert!(pool.try_acquire());
    assert!(pool.try_acquire());
    // A third simultaneous connection waits: no permit is granted.
    assert!(!pool.try_acquire());
    assert_eq!(pool.active_count(), 2);
    pool.release();
    assert_eq!(pool.active_count(), 1);
    assert!(pool.try_acquire());
    assert!(!pool.try_acquire());
}

#[test]
fn admission_with_zero_limit_refuses_all() {
    let mut pool = PermitPool::new(0);
    assert!(!pool.try_acquire());
    assert_eq!(pool.active_count(), 0);
}

#[test]
fn process_data_extracts_first_frame() {
    let data = bytes::Bytes::from(vec![0xAAu8, 0x68, 0x04, 0x07, 0x00, 0x00, 0x00]);
    let pkg = process_data(data).expect("a complete frame follows the noise");
    assert_eq!(pkg.message.to_vec(), vec![0x68, 0x04, 0x07, 0x00, 0x00, 0x00]);
    assert_eq!(pkg.frame_type, "U-Frame");
    assert!(pkg.time_stamp >= 0);
}

#[test]
fn process_data_incomplete_is_none() {
    let data = bytes::Bytes::from(vec![0x68u8, 0x04, 0x07]);
    assert!(process_data(data).is_none());
    let no_marker = bytes::Bytes::from(vec![0x01u8, 0x02, 0x03]);
    assert!(process_data(no_marker).is_none());
    let empty = bytes::Bytes::from(Vec::<u8>::new());
    assert!(process_data(empty).is_none());
}

#[test]
fn message_package_holds_its_parts() {
    let body = bytes::Bytes::from(vec![0x68u8, 0x00]);
    let pkg = MessagePackage::new(body.clone(), String::from("I-Frame"), 42);
    assert_eq!(pkg.message, body);
    assert_eq!(pkg.frame_type, "I-Frame");
    assert_eq!(pkg.time_stamp, 42);
}

#[test]
fn clock_reads_nonnegative() {
    let t = current_time_millis();
    assert!(t >= 0);
}
