use snapshot_channel::{FutOrOut, Glimpse, GlimpsePeekTask, PeekFuture, PeekRound, Spin, StUtils};
use std::future::{pending, ready, Pending, Ready};

/// Brings the output of a glimpse about by way of a snapshot of its own.
fn finish(glimpse: &mut Glimpse<Ready<u8>, u32>, output: u8) {
    let snapshot = glimpse.snapshot();
    let wait = PeekFuture::new(&snapshot);
    assert_eq!(wait.poll(glimpse, false, 0), PeekRound::Again);
    assert_eq!(wait.poll(glimpse, false, 0), PeekRound::PollFuture);
    assert_eq!(wait.resume(glimpse, Some(output)), vec![0]);
}

#[test]
fn glimpse_state_msb_should_change_on_mutex_acq() {
    let mut glimpse = Glimpse::<Pending<()>, u32>::new(pending());
    // a new glimpse has released mutex state.
    let v = glimpse.state().value();
    assert!(StUtils::expect_mutex_released(v));

    assert!(glimpse.try_lock());
    let v = glimpse.state().value();
    assert!(StUtils::expect_mutex_acquired(v));
    assert!(!glimpse.try_lock());
    glimpse.unlock();
    let v = glimpse.state().value();
    assert!(StUtils::expect_mutex_released(v));
}

#[test]
fn glimpse_ptr_from_wake_queue_should_work() {
    struct Holder {
        flags: u64,
        queue: Vec<usize>,
    }
    fn address<T>(x: &T) -> usize {
        std::ptr::from_ref(x).addr()
    }
    let probe = Holder { flags: 0, queue: Vec::new() };
    let offset = address(&probe.queue) - address(&probe);
    let holder = Holder { flags: 1, queue: vec![2] };
    assert_eq!(probe.flags + holder.flags, 1);
    let found = Glimpse::<Ready<()>, u32>::glimpse_ptr_from_wake_queue_(
        address(&holder.queue),
        offset,
    );
    assert_eq!(found, address(&holder));
    assert_eq!(Glimpse::<Ready<()>, u32>::glimpse_ptr_from_wake_queue_(4096, 24), 4072);
}

#[test]
fn new_future_is_not_ready() {
    let held = FutOrOut::new(ready(3u8));
    assert!(matches!(held, FutOrOut::Fut(_)));
}

#[test]
fn new_glimpse_holds_the_future() {
    let mut glimpse = Glimpse::<Ready<u8>, u32>::new(ready(3));
    assert_eq!(glimpse.state().value(), 0);
    assert_eq!(glimpse.head_snapshot_(), None);
    assert_eq!(glimpse.try_peek(), None);
    assert!(glimpse.future_mut().is_some());
}

#[test]
fn peek_rounds_before_the_output() {
    let glimpse = Glimpse::<Ready<u8>, u32>::new(ready(3));
    assert_eq!(glimpse.spin_peek().may_cancel_with(false), Spin::Again);
    assert_eq!(glimpse.spin_peek().may_cancel_with(true), Spin::Done(None));
    assert_eq!(glimpse.spin_peek().wait(), Spin::Again);
}

#[test]
fn peek_rounds_after_the_output() {
    let mut glimpse = Glimpse::<Ready<u8>, u32>::new(ready(3));
    finish(&mut glimpse, 7);
    assert_eq!(glimpse.try_peek(), Some(&7));
    assert_eq!(glimpse.spin_peek().may_cancel_with(false), Spin::Done(Some(&7)));
    assert_eq!(glimpse.spin_peek().may_cancel_with(true), Spin::Done(Some(&7)));
    assert_eq!(glimpse.spin_peek().wait(), Spin::Done(&7));
    assert_eq!(glimpse.state().value(), StUtils::K_READY_FLAG);
    assert!(glimpse.future_mut().is_none());
}

#[test]
fn peek_task_knows_its_glimpse() {
    let mut glimpse = Glimpse::<Ready<u8>, u32>::new(ready(3));
    finish(&mut glimpse, 9);
    let task = GlimpsePeekTask::new(&glimpse);
    assert_eq!(task.glimpse().try_peek(), Some(&9));
    assert_eq!(task.wait(), Spin::Done(&9));
}

#[test]
fn glimpse_shows_itself() {
    assert_eq!(
        Glimpse::<Ready<u8>, u32>::debug_text(Some("7"), "0x10"),
        "Glimpse(7@0x10)"
    );
    assert_eq!(Glimpse::<Ready<u8>, u32>::debug_text(None, "0x10"), "Glimpse@0x10");
}
