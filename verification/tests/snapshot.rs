use snapshot_channel::{
    Glimpse, PeekFuture, PeekRound, Snapshot, SnapshotError, SnapshotLink, SnapshotNode,
    SnapshotPeekTask, Spin, StUtils,
};
use std::future::{ready, Ready};

type Channel = Glimpse<Ready<u8>, u32>;

fn channel() -> Channel {
    Glimpse::new(ready(0))
}

fn nodes(links: Vec<(bool, bool, Option<usize>)>) -> Vec<SnapshotNode<u32>> {
    let mut made = Vec::new();
    for (lock, glimpse, prev) in links {
        let mut node = match prev {
            None => SnapshotNode::head(glimpse),
            Some(_) => SnapshotNode::node(prev, None),
        };
        node.glimpse_ = glimpse;
        node.lock_ = lock;
        made.push(node);
    }
    made
}

#[test]
fn head_node_starts_a_list() {
    let node = SnapshotNode::<u32>::head(true);
    assert!(node.live_ && node.glimpse_ && !node.lock_);
    assert_eq!(node.wake_, None);
    assert_eq!(node.link_, SnapshotLink::Head { next_: None, tail_: None });
    assert_eq!(node.prev_ptr(), None);
}

#[test]
fn inner_node_has_neighbours() {
    let node = SnapshotNode::<u32>::node(Some(4), Some(6));
    assert!(node.live_ && !node.glimpse_ && !node.lock_);
    assert_eq!(node.link_, SnapshotLink::Node { prev_: Some(4), next_: Some(6) });
    assert_eq!(node.prev_ptr(), Some(4));
}

#[test]
fn waker_is_set_once() {
    let mut node = SnapshotNode::<u32>::head(true);
    assert_eq!(node.try_init_waker_(|| 11), Ok(&11));
    assert_eq!(node.try_init_waker_(|| panic!("a second waker")), Err(&11));
    assert_eq!(node.wake_, Some(11));
}

#[test]
fn walk_goes_back_to_the_first_node() {
    let list = nodes(vec![
        (false, true, None),
        (false, false, Some(0)),
        (false, false, Some(1)),
        (false, false, None),
    ]);
    for at in 0..3 {
        assert_eq!(Snapshot::try_find_head_(&list, None, at, false), Spin::Done(Ok(0)));
    }
    assert_eq!(Snapshot::try_find_head_(&list, None, 3, false), Spin::Done(Ok(3)));
}

#[test]
fn walk_prefers_the_head_of_the_glimpse() {
    let list = nodes(vec![
        (false, false, None),
        (false, true, Some(0)),
        (false, false, Some(1)),
        (false, true, None),
    ]);
    assert_eq!(Snapshot::try_find_head_(&list, Some(3), 2, false), Spin::Done(Ok(3)));
    assert_eq!(Snapshot::try_find_head_(&list, Some(3), 1, false), Spin::Done(Ok(3)));
    assert_eq!(Snapshot::try_find_head_(&list, Some(3), 0, false), Spin::Done(Ok(0)));
    assert_eq!(Snapshot::try_find_head_(&list, None, 2, false), Spin::Done(Ok(0)));
}

#[test]
fn walk_stops_at_a_locked_node() {
    let list = nodes(vec![
        (true, true, None),
        (false, false, Some(0)),
        (false, true, Some(1)),
    ]);
    assert_eq!(Snapshot::try_find_head_(&list, None, 2, false), Spin::Again);
    assert_eq!(
        Snapshot::try_find_head_(&list, None, 2, true),
        Spin::Done(Err(SnapshotError::Cancelled))
    );
    assert_eq!(Snapshot::try_find_head_(&list, Some(0), 2, false), Spin::Done(Ok(0)));
}

#[test]
fn refused_guard() {
    assert_eq!(Snapshot::guard_refused::<u8>(false), Spin::Again);
    assert_eq!(
        Snapshot::guard_refused::<u8>(true),
        Spin::Done(Err(SnapshotError::Cancelled))
    );
}

#[test]
fn cancelled_means_nothing_yet() {
    assert_eq!(Snapshot::without_waiting(Ok(5)), Ok(Some(5)));
    assert_eq!(Snapshot::without_waiting::<u8>(Err(SnapshotError::Cancelled)), Ok(None));
    assert_eq!(
        Snapshot::without_waiting::<u8>(Err(SnapshotError::GlimpseMissing)),
        Err(SnapshotError::GlimpseMissing)
    );
    assert_eq!(
        Snapshot::without_waiting::<u8>(Err(SnapshotError::StandingBy)),
        Err(SnapshotError::StandingBy)
    );
    assert_eq!(
        Snapshot::without_waiting::<u8>(Err(SnapshotError::GlimpseFaded)),
        Err(SnapshotError::GlimpseFaded)
    );
}

#[test]
fn peek_through_the_list_remembers_the_way() {
    let mut glimpse = channel();
    let _root = glimpse.snapshot();
    let inner = glimpse.place(SnapshotNode::node(Some(0), None));
    let wait = PeekFuture::new(&inner);
    // The node does not know the glimpse until it has looked for it.
    assert_eq!(
        wait.poll(&mut glimpse, false, 1),
        PeekRound::Ready(Err(SnapshotError::GlimpseMissing))
    );
    assert_eq!(inner.look(&glimpse), Ok(None));
    assert_eq!(
        wait.poll(&mut glimpse, false, 1),
        PeekRound::Ready(Err(SnapshotError::GlimpseMissing))
    );
    assert_eq!(inner.try_peek(&mut glimpse), Ok(None));
    assert_eq!(wait.poll(&mut glimpse, false, 1), PeekRound::Again);
    assert_eq!(wait.poll(&mut glimpse, false, 1), PeekRound::PollFuture);
}

#[test]
fn list_without_a_way_is_missing_the_glimpse() {
    let mut glimpse = channel();
    let _root = glimpse.place(SnapshotNode::head(false));
    let inner = glimpse.place(SnapshotNode::node(Some(0), None));
    let missing = Err(SnapshotError::GlimpseMissing);
    assert_eq!(inner.try_peek(&mut glimpse), missing);
    assert_eq!(inner.look(&glimpse), missing);
    assert_eq!(
        inner.spin_peek().may_cancel_with(&mut glimpse, false),
        Spin::Done(Err(SnapshotError::GlimpseMissing))
    );
}

#[test]
fn peek_rounds() {
    let mut glimpse = channel();
    let snapshot = glimpse.snapshot();
    assert_eq!(snapshot.spin_peek().may_cancel_with(&mut glimpse, false), Spin::Again);
    assert_eq!(
        snapshot.spin_peek().may_cancel_with(&mut glimpse, true),
        Spin::Done(Err(SnapshotError::Cancelled))
    );
    assert_eq!(SnapshotPeekTask::new(&snapshot).wait(&mut glimpse), Spin::Again);
    let wait = PeekFuture::new(&snapshot);
    assert_eq!(wait.poll(&mut glimpse, false, 1), PeekRound::Again);
    assert_eq!(wait.poll(&mut glimpse, false, 1), PeekRound::PollFuture);
    assert_eq!(wait.resume(&mut glimpse, Some(42)), vec![1]);
    assert_eq!(
        snapshot.spin_peek().may_cancel_with(&mut glimpse, false),
        Spin::Done(Ok(&42))
    );
    assert_eq!(
        snapshot.spin_peek().may_cancel_with(&mut glimpse, true),
        Spin::Done(Ok(&42))
    );
    assert_eq!(snapshot.spin_peek().wait(&mut glimpse), Spin::Done(&42));
}

#[test]
fn poller_bars_its_own_node() {
    let mut glimpse = channel();
    let poller = glimpse.snapshot();
    let inner = glimpse.place(SnapshotNode::node(Some(0), None));
    let other = glimpse.snapshot();
    let wait = PeekFuture::new(&poller);
    assert_eq!(wait.poll(&mut glimpse, false, 1), PeekRound::Again);
    assert_eq!(wait.poll(&mut glimpse, false, 1), PeekRound::PollFuture);
    assert!(StUtils::expect_mutex_acquired(glimpse.state().value()));

    assert_eq!(poller.try_peek(&mut glimpse), Ok(None));
    assert_eq!(inner.try_peek(&mut glimpse), Ok(None));
    assert_eq!(inner.spin_peek().may_cancel_with(&mut glimpse, false), Spin::Again);
    assert_eq!(
        inner.spin_peek().may_cancel_with(&mut glimpse, true),
        Spin::Done(Err(SnapshotError::Cancelled))
    );
    assert_eq!(inner.spin_peek().wait(&mut glimpse), Spin::Again);
    assert_eq!(wait.poll(&mut glimpse, false, 1), PeekRound::Again);
    assert_eq!(
        wait.poll(&mut glimpse, true, 1),
        PeekRound::Ready(Err(SnapshotError::Cancelled))
    );

    // Another snapshot joins the queue, and then spins for the lock on the future.
    let second = PeekFuture::new(&other);
    assert_eq!(second.poll(&mut glimpse, false, 2), PeekRound::Again);
    assert_eq!(second.poll(&mut glimpse, false, 2), PeekRound::Again);
    assert_eq!(
        second.poll(&mut glimpse, true, 2),
        PeekRound::Ready(Err(SnapshotError::Cancelled))
    );
    assert_eq!(wait.resume(&mut glimpse, Some(5)), vec![1, 2]);
    assert_eq!(second.poll(&mut glimpse, false, 2), PeekRound::Ready(Ok(&5)));
    assert_eq!(inner.try_peek(&mut glimpse), Ok(Some(&5)));
}

#[test]
fn cancelled_before_joining_the_queue() {
    let mut glimpse = channel();
    let snapshot = glimpse.snapshot();
    let wait = snapshot.peek_async().may_cancel_with();
    assert_eq!(
        wait.poll(&mut glimpse, true, 1),
        PeekRound::Ready(Err(SnapshotError::Cancelled))
    );
    // It did not join: the next poll is the one that does.
    assert_eq!(wait.poll(&mut glimpse, false, 1), PeekRound::Again);
    assert_eq!(
        wait.poll(&mut glimpse, true, 1),
        PeekRound::Ready(Err(SnapshotError::Cancelled))
    );
    assert_eq!(wait.poll(&mut glimpse, false, 1), PeekRound::PollFuture);
}

#[test]
fn pending_future_is_polled_again_by_the_one_whose_turn_it_is() {
    let mut glimpse = channel();
    let first = glimpse.snapshot();
    let second = glimpse.snapshot();
    let wait = PeekFuture::new(&first);
    assert_eq!(wait.poll(&mut glimpse, false, 1), PeekRound::Again);
    assert_eq!(wait.poll(&mut glimpse, false, 1), PeekRound::PollFuture);
    assert_eq!(wait.resume(&mut glimpse, None), Vec::<u32>::new());
    assert_eq!(glimpse.state().value(), StUtils::K_PENDING_FLAG);
    let other = PeekFuture::new(&second);
    assert_eq!(other.poll(&mut glimpse, false, 2), PeekRound::Again);
    assert_eq!(other.poll(&mut glimpse, false, 2), PeekRound::Pending);
    assert_eq!(other.poll(&mut glimpse, true, 2), PeekRound::Pending);
    assert_eq!(
        wait.poll(&mut glimpse, true, 1),
        PeekRound::Ready(Err(SnapshotError::Cancelled))
    );
    for _ in 0..3 {
        assert_eq!(wait.poll(&mut glimpse, false, 1), PeekRound::PollFuture);
        assert_eq!(glimpse.state().value(), StUtils::K_MUTEX_FLAG);
        assert_eq!(other.poll(&mut glimpse, false, 2), PeekRound::Again);
        assert_eq!(wait.resume(&mut glimpse, None), Vec::<u32>::new());
        assert_eq!(glimpse.state().value(), StUtils::K_PENDING_FLAG);
        assert_eq!(other.poll(&mut glimpse, false, 2), PeekRound::Pending);
    }
    assert_eq!(wait.poll(&mut glimpse, false, 1), PeekRound::PollFuture);
    assert_eq!(wait.resume(&mut glimpse, Some(12)), vec![1, 2]);
    assert_eq!(glimpse.state().value(), StUtils::K_READY_FLAG);
    assert_eq!(wait.poll(&mut glimpse, false, 1), PeekRound::Ready(Ok(&12)));
    assert_eq!(other.poll(&mut glimpse, false, 2), PeekRound::Ready(Ok(&12)));
}

#[test]
fn turn_waits_for_the_lock() {
    let mut glimpse = channel();
    let snapshot = glimpse.snapshot();
    let wait = PeekFuture::new(&snapshot);
    assert_eq!(wait.poll(&mut glimpse, false, 1), PeekRound::Again);
    assert_eq!(wait.poll(&mut glimpse, false, 1), PeekRound::PollFuture);
    assert_eq!(wait.resume(&mut glimpse, None), Vec::<u32>::new());
    assert!(glimpse.try_lock());
    assert_eq!(wait.poll(&mut glimpse, false, 1), PeekRound::Again);
    glimpse.unlock();
    assert_eq!(wait.poll(&mut glimpse, false, 1), PeekRound::PollFuture);
}

#[test]
fn abandoned_turn_leaves_the_future_pending() {
    let mut glimpse = channel();
    let first = glimpse.snapshot();
    let second = glimpse.snapshot();
    let wait = PeekFuture::new(&first);
    assert_eq!(wait.poll(&mut glimpse, false, 1), PeekRound::Again);
    assert_eq!(wait.poll(&mut glimpse, false, 1), PeekRound::PollFuture);
    assert_eq!(wait.resume(&mut glimpse, None), Vec::<u32>::new());
    assert_eq!(wait.poll(&mut glimpse, false, 1), PeekRound::PollFuture);
    wait.abandon(&mut glimpse);
    assert_eq!(glimpse.state().value(), StUtils::K_PENDING_FLAG);
    let other = PeekFuture::new(&second);
    assert_eq!(other.poll(&mut glimpse, false, 2), PeekRound::Again);
    assert_eq!(other.poll(&mut glimpse, false, 2), PeekRound::Pending);
    assert_eq!(wait.poll(&mut glimpse, false, 1), PeekRound::PollFuture);
}

#[test]
fn released_snapshot_passes_its_turn_on() {
    let mut glimpse = channel();
    let first = glimpse.snapshot();
    let second = glimpse.snapshot();
    let third = glimpse.snapshot();
    let wait = PeekFuture::new(&first);
    assert_eq!(PeekFuture::new(&third).poll(&mut glimpse, false, 3), PeekRound::Again);
    assert_eq!(wait.poll(&mut glimpse, false, 1), PeekRound::Again);
    assert_eq!(PeekFuture::new(&second).poll(&mut glimpse, false, 2), PeekRound::Again);
    assert_eq!(wait.poll(&mut glimpse, false, 1), PeekRound::PollFuture);
    assert_eq!(wait.resume(&mut glimpse, None), Vec::<u32>::new());
    assert_eq!(PeekFuture::new(&second).poll(&mut glimpse, false, 2), PeekRound::Pending);
    assert_eq!(first.release(&mut glimpse), vec![3, 2]);
    assert_eq!(glimpse.state().value(), 0);

    let wait = PeekFuture::new(&second);
    assert_eq!(wait.poll(&mut glimpse, false, 4), PeekRound::Again);
    assert_eq!(wait.poll(&mut glimpse, false, 4), PeekRound::PollFuture);
    assert_eq!(wait.resume(&mut glimpse, None), Vec::<u32>::new());
    assert_eq!(PeekFuture::new(&third).poll(&mut glimpse, false, 5), PeekRound::Again);
    assert_eq!(PeekFuture::new(&third).poll(&mut glimpse, false, 5), PeekRound::Pending);
    assert_eq!(wait.poll(&mut glimpse, false, 4), PeekRound::PollFuture);
    assert_eq!(wait.resume(&mut glimpse, Some(21)), vec![4, 5]);
    assert_eq!(third.try_peek(&mut glimpse), Ok(Some(&21)));
}

#[test]
fn ended_wait_passes_its_turn_on() {
    let mut glimpse = channel();
    let first = glimpse.snapshot();
    let second = glimpse.snapshot();
    let wait = PeekFuture::new(&first);
    let other = PeekFuture::new(&second);
    assert_eq!(wait.poll(&mut glimpse, false, 1), PeekRound::Again);
    assert_eq!(wait.poll(&mut glimpse, false, 1), PeekRound::PollFuture);
    assert_eq!(wait.resume(&mut glimpse, None), Vec::<u32>::new());
    assert_eq!(other.poll(&mut glimpse, false, 2), PeekRound::Again);
    assert_eq!(other.leave(&mut glimpse), Vec::<u32>::new());
    assert_eq!(other.poll(&mut glimpse, false, 3), PeekRound::Again);
    assert_eq!(
        wait.poll(&mut glimpse, true, 1),
        PeekRound::Ready(Err(SnapshotError::Cancelled))
    );
    assert_eq!(wait.leave(&mut glimpse), vec![3]);
    assert_eq!(wait.leave(&mut glimpse), Vec::<u32>::new());
    assert_eq!(other.poll(&mut glimpse, false, 3), PeekRound::Again);
    assert_eq!(other.poll(&mut glimpse, false, 3), PeekRound::PollFuture);
    assert_eq!(other.resume(&mut glimpse, Some(2)), vec![3]);
    // Who ended its wait is a viewer still.
    assert_eq!(first.try_peek(&mut glimpse), Ok(Some(&2)));
}

#[test]
fn wakers_come_in_the_order_of_the_queue() {
    let mut glimpse = channel();
    let first = glimpse.snapshot();
    let second = glimpse.snapshot();
    let third = glimpse.snapshot();
    assert_eq!(PeekFuture::new(&third).poll(&mut glimpse, false, 30), PeekRound::Again);
    assert_eq!(PeekFuture::new(&first).poll(&mut glimpse, false, 10), PeekRound::Again);
    assert_eq!(PeekFuture::new(&second).poll(&mut glimpse, false, 20), PeekRound::Again);
    // Polling again does not change the waker that is kept.
    let wait = PeekFuture::new(&first);
    assert_eq!(wait.poll(&mut glimpse, false, 11), PeekRound::PollFuture);
    assert_eq!(wait.resume(&mut glimpse, Some(1)), vec![30, 10, 20]);
    assert_eq!(wait.poll(&mut glimpse, false, 12), PeekRound::Ready(Ok(&1)));
}

#[test]
fn abandoned_poll_can_be_taken_up() {
    let mut glimpse = channel();
    let snapshot = glimpse.snapshot();
    let wait = PeekFuture::new(&snapshot);
    assert_eq!(wait.poll(&mut glimpse, false, 1), PeekRound::Again);
    assert_eq!(wait.poll(&mut glimpse, false, 1), PeekRound::PollFuture);
    wait.abandon(&mut glimpse);
    assert_eq!(glimpse.state().value(), 0);
    assert_eq!(wait.poll(&mut glimpse, false, 1), PeekRound::PollFuture);
    assert_eq!(wait.resume(&mut glimpse, Some(8)), vec![1]);
    assert_eq!(glimpse.try_peek(), Some(&8));
}

#[test]
fn viewers_hold_the_output_at_one_time() {
    let mut glimpse = channel();
    let one = glimpse.snapshot();
    let other = one.clone(&mut glimpse);
    let wait = PeekFuture::new(&one);
    assert_eq!(wait.poll(&mut glimpse, false, 1), PeekRound::Again);
    assert_eq!(wait.poll(&mut glimpse, false, 1), PeekRound::PollFuture);
    assert_eq!(wait.resume(&mut glimpse, Some(77)), vec![1]);
    let a = one.look(&glimpse);
    let b = other.look(&glimpse);
    let c = glimpse.try_peek();
    assert_eq!(a, Ok(Some(&77)));
    assert_eq!(b, a);
    assert!(std::ptr::eq(a.unwrap().unwrap(), b.unwrap().unwrap()));
    assert!(std::ptr::eq(a.unwrap().unwrap(), c.unwrap()));
}

#[test]
fn peeking_twice_is_peeking_once() {
    let mut glimpse = channel();
    let snapshot = glimpse.snapshot();
    assert_eq!(snapshot.try_peek(&mut glimpse), Ok(None));
    assert_eq!(snapshot.try_peek(&mut glimpse), Ok(None));
    let wait = PeekFuture::new(&snapshot);
    assert_eq!(wait.poll(&mut glimpse, false, 1), PeekRound::Again);
    assert_eq!(wait.poll(&mut glimpse, false, 1), PeekRound::PollFuture);
    assert_eq!(wait.resume(&mut glimpse, Some(6)), vec![1]);
    for _ in 0..3 {
        assert_eq!(snapshot.try_peek(&mut glimpse), Ok(Some(&6)));
        assert_eq!(wait.poll(&mut glimpse, false, 1), PeekRound::Ready(Ok(&6)));
        assert_eq!(wait.poll(&mut glimpse, true, 1), PeekRound::Ready(Ok(&6)));
    }
}

#[test]
fn closed_glimpse_is_missing() {
    let mut glimpse = channel();
    let snapshot = glimpse.snapshot();
    let wait = PeekFuture::new(&snapshot);
    assert_eq!(wait.poll(&mut glimpse, false, 1), PeekRound::Again);
    assert_eq!(wait.poll(&mut glimpse, false, 1), PeekRound::PollFuture);
    assert_eq!(wait.resume(&mut glimpse, Some(6)), vec![1]);
    glimpse.close();
    let orphan = snapshot.clone(&mut glimpse);
    assert_eq!(snapshot.try_peek(&mut glimpse), Err(SnapshotError::GlimpseMissing));
    assert_eq!(orphan.try_peek(&mut glimpse), Err(SnapshotError::GlimpseMissing));
    assert_eq!(
        wait.poll(&mut glimpse, false, 1),
        PeekRound::Ready(Err(SnapshotError::GlimpseMissing))
    );
    assert_eq!(glimpse.try_peek(), Some(&6));
}

#[test]
fn released_snapshot_is_not_woken() {
    let mut glimpse = channel();
    let first = glimpse.snapshot();
    let second = glimpse.snapshot();
    let third = glimpse.snapshot();
    assert_eq!(PeekFuture::new(&first).poll(&mut glimpse, false, 1), PeekRound::Again);
    assert_eq!(PeekFuture::new(&second).poll(&mut glimpse, false, 2), PeekRound::Again);
    assert_eq!(PeekFuture::new(&third).poll(&mut glimpse, false, 3), PeekRound::Again);
    assert_eq!(second.release(&mut glimpse), Vec::<u32>::new());
    let wait = PeekFuture::new(&third);
    assert_eq!(wait.poll(&mut glimpse, false, 3), PeekRound::PollFuture);
    assert_eq!(wait.resume(&mut glimpse, Some(4)), vec![1, 3]);
}

#[test]
fn snapshot_shows_itself() {
    assert_eq!(
        Snapshot::debug_text("0x1", "0x2", "0x3", None),
        "Snapshot[0x1, prev(0x2), next(0x3)]"
    );
    assert_eq!(
        Snapshot::debug_text("0x1", "0x2", "0x3", Some("Glimpse@0x9")),
        "Snapshot[0x1, prev(0x2), next(0x3), glimpse(Glimpse@0x9)]]"
    );
}

#[test]
fn clone_goes_by_what_it_knows() {
    let mut glimpse = channel();
    let _root = glimpse.snapshot();
    let inner = glimpse.place(SnapshotNode::node(Some(0), None));
    // Others lead the inner node to the glimpse, but its clone starts a list of its own.
    let early = inner.clone(&mut glimpse);
    assert_eq!(early.try_peek(&mut glimpse), Err(SnapshotError::GlimpseMissing));
    assert_eq!(inner.try_peek(&mut glimpse), Ok(None));
    let late = inner.clone(&mut glimpse);
    assert_eq!(late.try_peek(&mut glimpse), Ok(None));
}

#[test]
fn late_snapshot_finds_the_output() {
    let mut glimpse = channel();
    let first = glimpse.snapshot();
    let wait = PeekFuture::new(&first);
    assert_eq!(wait.poll(&mut glimpse, false, 1), PeekRound::Again);
    assert_eq!(wait.poll(&mut glimpse, false, 1), PeekRound::PollFuture);
    assert_eq!(wait.resume(&mut glimpse, Some(9)), vec![1]);
    let late = glimpse.snapshot();
    assert_eq!(first.release(&mut glimpse), Vec::<u32>::new());
    assert!(glimpse.try_lock());
    assert_eq!(late.try_peek(&mut glimpse), Ok(Some(&9)));
    assert_eq!(late.spin_peek().may_cancel_with(&mut glimpse, false), Spin::Done(Ok(&9)));
    assert_eq!(PeekFuture::new(&late).poll(&mut glimpse, false, 2), PeekRound::Ready(Ok(&9)));
}
