use snapshot_channel::{
    FadeAsync, Glimpse, PeekFuture, PeekRound, Snapshot, SnapshotError,
};
use std::cell::Cell;
use std::future::{ready, Future, Ready};
use std::pin::Pin;
use std::rc::Rc;
use std::sync::Arc;
use std::task::{Context, Poll, Waker};

/// Polls a snapshot to the end of one poll, running the future where that is asked for.
/// Gives the result, if there is one, and the wakers that were handed out on the way.
fn poll_once<F>(
    glimpse: &mut Glimpse<F, u32>,
    snapshot: &Snapshot,
    waker: u32,
) -> (Option<Result<F::Output, SnapshotError>>, Vec<u32>)
where
    F: Future + Unpin,
    F::Output: Clone,
{
    let wait = snapshot.peek_async().may_cancel_with();
    loop {
        match wait.poll(glimpse, false, waker) {
            PeekRound::Ready(Ok(x)) => return (Some(Ok(x.clone())), Vec::new()),
            PeekRound::Ready(Err(e)) => return (Some(Err(e)), Vec::new()),
            PeekRound::Pending => return (None, Vec::new()),
            PeekRound::Again => {}
            PeekRound::PollFuture => {
                let future = glimpse.future_mut().unwrap();
                let mut context = Context::from_waker(Waker::noop());
                let polled = match Pin::new(future).poll(&mut context) {
                    Poll::Ready(x) => Some(x),
                    Poll::Pending => None,
                };
                return (None, wait.resume(glimpse, polled));
            }
        }
    }
}

/// The receiving end of a one-message channel.
struct Receive(Rc<Cell<bool>>);

impl Future for Receive {
    type Output = Option<()>;

    fn poll(self: Pin<&mut Self>, _: &mut Context<'_>) -> Poll<Self::Output> {
        if self.0.get() {
            Poll::Ready(Some(()))
        } else {
            Poll::Pending
        }
    }
}

#[test]
fn demo() {
    let sent = Rc::new(Cell::new(false));
    let mut glimpse = Glimpse::<_, u32>::new(Receive(sent.clone()));
    let snapshot = glimpse.snapshot();
    let snapshot_cloned = snapshot.clone(&mut glimpse);

    assert_eq!(snapshot.try_peek(&mut glimpse), Ok(None));
    assert_eq!(snapshot_cloned.try_peek(&mut glimpse), Ok(None));

    sent.set(true);
    assert_eq!(poll_once(&mut glimpse, &snapshot, 1), (None, vec![1]));
    assert_eq!(poll_once(&mut glimpse, &snapshot, 1).0, Some(Ok(Some(()))));

    // Cloned snapshot should observe the same result
    assert_eq!(poll_once(&mut glimpse, &snapshot_cloned, 2).0, Some(Ok(Some(()))));

    // Multiple times of peek_async is legal and idempotent
    assert_eq!(poll_once(&mut glimpse, &snapshot, 1).0, Some(Ok(Some(()))));

    assert_eq!(snapshot.release(&mut glimpse), Vec::<u32>::new());
    assert_eq!(snapshot_cloned.release(&mut glimpse), Vec::<u32>::new());
    let fade = glimpse.fade_async().may_cancel_with();
    assert_eq!(fade.poll(false, 3), PeekRound::Ready(Ok(&Some(()))));
}

#[test]
fn future_should_properly_drop() {
    struct DemoFut(Arc<()>);

    impl Future for DemoFut {
        type Output = usize;

        fn poll(self: Pin<&mut Self>, _: &mut Context<'_>) -> Poll<Self::Output> {
            Poll::Ready(Arc::strong_count(&self.as_ref().get_ref().0))
        }
    }

    let detect = Arc::new(());
    assert_eq!(Arc::strong_count(&detect), 1);

    let future = DemoFut(detect.clone());
    {
        let mut glimpse = Glimpse::<_, u32>::new(future);
        assert_eq!(Arc::strong_count(&detect), 2);
        let snapshot = glimpse.snapshot();
        assert_eq!(poll_once(&mut glimpse, &snapshot, 1), (None, vec![1]));
        // The output has taken the place of the future.
        assert_eq!(Arc::strong_count(&detect), 1);
        assert_eq!(poll_once(&mut glimpse, &snapshot, 1).0, Some(Ok(2)));
    }
    assert_eq!(Arc::strong_count(&detect), 1);
}

#[test]
fn unready_future_is_shared_when_it_becomes_ready() {
    let sent = Rc::new(Cell::new(false));
    let mut glimpse = Glimpse::<_, u32>::new(Receive(sent.clone()));
    let snapshot = glimpse.snapshot();
    let other = snapshot.clone(&mut glimpse);
    assert_eq!(poll_once(&mut glimpse, &snapshot, 1), (None, vec![]));
    assert_eq!(poll_once(&mut glimpse, &other, 2), (None, vec![]));
    assert_eq!(poll_once(&mut glimpse, &snapshot, 1), (None, vec![]));
    assert_eq!(snapshot.try_peek(&mut glimpse), Ok(None));
    sent.set(true);
    // It is not the other's turn to poll.
    assert_eq!(poll_once(&mut glimpse, &other, 2), (None, vec![]));
    assert_eq!(poll_once(&mut glimpse, &snapshot, 1), (None, vec![1, 2]));
    assert_eq!(poll_once(&mut glimpse, &snapshot, 1).0, Some(Ok(Some(()))));
    assert_eq!(poll_once(&mut glimpse, &other, 2).0, Some(Ok(Some(()))));
    assert_eq!(snapshot.try_peek(&mut glimpse), Ok(Some(&Some(()))));
}

#[test]
fn snapshots_can_be_taken_at_any_time() {
    let sent = Rc::new(Cell::new(false));
    let mut glimpse = Glimpse::<_, u32>::new(Receive(sent.clone()));
    let first = glimpse.snapshot();
    assert_eq!(poll_once(&mut glimpse, &first, 1), (None, vec![]));
    assert_eq!(glimpse.head_snapshot_(), None);
    let second = glimpse.snapshot();
    sent.set(true);
    assert_eq!(first.release(&mut glimpse), Vec::<u32>::new());
    assert_eq!(poll_once(&mut glimpse, &second, 2), (None, vec![2]));
    assert_eq!(glimpse.head_snapshot_(), None);
    let third = glimpse.snapshot();
    assert_eq!(third.try_peek(&mut glimpse), Ok(Some(&Some(()))));
}

#[test]
fn fading_waits_for_the_output() {
    let mut glimpse = Glimpse::<Ready<u8>, u32>::new(ready(3));
    assert_eq!(
        FadeAsync::new(&mut glimpse).may_cancel_with().poll(false, 9),
        PeekRound::Pending
    );
    assert_eq!(
        FadeAsync::new(&mut glimpse).may_cancel_with().poll(true, 9),
        PeekRound::Ready(Err(SnapshotError::Cancelled))
    );
}

#[test]
fn fading_waits_for_the_last_release() {
    let mut glimpse = Glimpse::<Ready<u8>, u32>::new(ready(3));
    let one = glimpse.snapshot();
    let other = glimpse.snapshot();
    assert_eq!(poll_once(&mut glimpse, &one, 1), (None, vec![1]));
    assert_eq!(
        FadeAsync::new(&mut glimpse).may_cancel_with().poll(false, 9),
        PeekRound::Pending
    );
    assert_eq!(one.release(&mut glimpse), Vec::<u32>::new());
    assert_eq!(
        FadeAsync::new(&mut glimpse).may_cancel_with().poll(false, 10),
        PeekRound::Pending
    );
    assert_eq!(other.release(&mut glimpse), vec![10]);
    assert_eq!(
        FadeAsync::new(&mut glimpse).may_cancel_with().poll(true, 9),
        PeekRound::Ready(Ok(&3))
    );
}

#[test]
fn fading_anew_forgets_who_waited() {
    let mut glimpse = Glimpse::<Ready<u8>, u32>::new(ready(3));
    let snapshot = glimpse.snapshot();
    assert_eq!(poll_once(&mut glimpse, &snapshot, 1), (None, vec![1]));
    assert_eq!(
        glimpse.fade_async().may_cancel_with().poll(false, 9),
        PeekRound::Pending
    );
    let _ = glimpse.fade_async();
    assert_eq!(snapshot.release(&mut glimpse), Vec::<u32>::new());
}

#[test]
fn output_stays_through_everything() {
    let mut glimpse = Glimpse::<Ready<u8>, u32>::new(ready(3));
    let snapshot = glimpse.snapshot();
    assert_eq!(poll_once(&mut glimpse, &snapshot, 1), (None, vec![1]));
    let late = glimpse.snapshot();
    assert_eq!(PeekFuture::new(&late).poll(&mut glimpse, true, 2), PeekRound::Ready(Ok(&3)));
    assert_eq!(late.release(&mut glimpse), Vec::<u32>::new());
    assert!(glimpse.try_lock());
    glimpse.unlock();
    glimpse.close();
    assert_eq!(glimpse.try_peek(), Some(&3));
}
