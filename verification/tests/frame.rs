use shrek::{FrameSync, Poll};

#[test]
fn sync_records_the_observed_tick() {
    let sync = FrameSync { current: 5 };
    let poller = sync.sync();
    assert_eq!(poller.frame, 5);
    assert!(!poller.installed);
}

#[test]
fn barrier_pending_while_counter_unchanged() {
    let sync = FrameSync { current: 5 };
    let mut poller = sync.sync();
    assert_eq!(poller.poll(5), Poll::Pending);
    assert!(poller.installed);
    assert_eq!(poller.poll(5), Poll::Pending);
    assert_eq!(poller.poll(5), Poll::Pending);
}

#[test]
fn barrier_ready_once_counter_advances() {
    let sync = FrameSync { current: 5 };
    let mut poller = sync.sync();
    assert_eq!(poller.poll(5), Poll::Pending);
    assert_eq!(poller.poll(6), Poll::Ready);
    // any later tick also resumes it
    let mut other = sync.sync();
    assert_eq!(other.poll(100), Poll::Ready);
}

#[test]
fn barrier_never_ready_for_earlier_ticks() {
    let sync = FrameSync { current: 5 };
    let mut poller = sync.sync();
    assert_eq!(poller.poll(4), Poll::Pending);
    assert_eq!(poller.poll(0), Poll::Pending);
}
