use cyper::{Progress, Step, StreamAdapter};

#[test]
fn shutdown_waits_for_pending_write() {
    let mut a = StreamAdapter::new();
    assert_eq!(a.poll_write(10), Step::Start(10));
    assert_eq!(a.poll_shutdown(), Step::Wait);
    assert!(!a.pending_shutdown());
    assert_eq!(a.write_polled::<()>(Progress::NotReady), Progress::NotReady);
    assert_eq!(a.poll_shutdown(), Step::Wait);
    assert_eq!(a.write_polled::<()>(Progress::Ready(Ok(10))), Progress::Ready(Ok(10)));
    assert_eq!(a.pending_write(), None);
    assert_eq!(a.poll_shutdown(), Step::Start(0));
    assert!(a.pending_shutdown());
}

#[test]
fn write_waits_for_pending_shutdown() {
    let mut a = StreamAdapter::new();
    assert_eq!(a.poll_shutdown(), Step::Start(0));
    assert_eq!(a.poll_write(4), Step::Wait);
    assert_eq!(a.pending_write(), None);
    assert_eq!(a.poll_shutdown(), Step::Resume);
    assert_eq!(a.shutdown_polled::<()>(Progress::Ready(Ok(()))), Progress::Ready(Ok(())));
    assert_eq!(a.poll_write(4), Step::Start(4));
}

#[test]
fn second_read_resumes_first() {
    let mut a = StreamAdapter::new();
    assert_eq!(a.poll_read(64), Step::Start(64));
    assert_eq!(a.poll_read(128), Step::Resume);
    assert_eq!(a.pending_read(), Some(64));
    assert_eq!(a.read_polled::<String>(Progress::Ready(Ok(5))), Progress::Ready(Ok(5)));
    assert_eq!(a.pending_read(), None);
    assert_eq!(a.poll_read(128), Step::Start(128));
}

#[test]
fn errors_pass_through_and_free_slot() {
    let mut a = StreamAdapter::new();
    assert_eq!(a.poll_read(8), Step::Start(8));
    let err = Progress::Ready(Err("reset".to_string()));
    assert_eq!(a.read_polled(err), Progress::Ready(Err("reset".to_string())));
    assert_eq!(a.pending_read(), None);
    assert_eq!(a.poll_write(3), Step::Start(3));
    assert_eq!(a.write_polled::<String>(Progress::Ready(Err("broken".to_string()))), Progress::Ready(Err("broken".to_string())));
    assert_eq!(a.pending_write(), None);
}

#[test]
fn flush_drives_pending_write() {
    let mut a = StreamAdapter::new();
    assert_eq!(a.poll_flush(), Step::Done);
    assert_eq!(a.poll_write(2), Step::Start(2));
    assert_eq!(a.poll_flush(), Step::Resume);
    assert_eq!(a.poll_write(2), Step::Resume);
}
