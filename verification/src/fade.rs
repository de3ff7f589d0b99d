//! Fading a glimpse: keeping it until nobody needs it.
use crate::error::SnapshotError;
use crate::glimpse::{Glimpse, GlimpseView};
use crate::snapshot::PeekRound;
use std::future::Future;
use vstd::prelude::*;

verus! {

impl<F: Future, W> GlimpseView<F, W> {
    /// One poll of the task that fades the glimpse: the output once it is there and
    /// every snapshot is released.
    pub open spec fn fade_round<'a>(self, cancelled: bool) -> PeekRound<&'a F::Output> {
        if self.faded() {
            PeekRound::Ready(Ok(&self.output()->0))
        } else if cancelled {
            PeekRound::Ready(Err(SnapshotError::Cancelled))
        } else {
            PeekRound::Pending
        }
    }

    /// After one poll of the task that fades the glimpse: while it has to wait, its
    /// waker is kept.
    pub open spec fn fade_next(self, cancelled: bool, waker: W) -> Self {
        if self.faded() || cancelled {
            self
        } else {
            GlimpseView { fade: Some(waker), ..self }
        }
    }
}

/// The fading of a glimpse, not begun yet.
pub struct FadeAsync<'a, F: Future, W> {
    pub glimpse_: &'a mut Glimpse<F, W>,
}

impl<'a, F: Future, W> FadeAsync<'a, F, W> {
    pub fn new(glimpse: &'a mut Glimpse<F, W>) -> (r: Self)
        ensures
            *r.glimpse_ == *old(glimpse),
            *final(glimpse) == *final(r.glimpse_),
    {
        FadeAsync { glimpse_: glimpse }
    }

    /// The fading, as a future that asks in each poll whether it is cancelled.
    pub fn may_cancel_with(self) -> (r: FadeFuture<'a, F, W>)
        ensures
            *r.glimpse_ == *old(self.glimpse_),
            *final(self.glimpse_) == *final(r.glimpse_),
    {
        FadeFuture { glimpse_: self.glimpse_ }
    }
}

/// The fading of a glimpse.
pub struct FadeFuture<'a, F: Future, W> {
    pub glimpse_: &'a mut Glimpse<F, W>,
}

impl<'a, F: Future, W> FadeFuture<'a, F, W> {
    /// Polls once. While there is something to wait for, keeps `waker` to be woken by
    /// the release of the last snapshot.
    pub fn poll(self, cancelled: bool, waker: W) -> (r: PeekRound<&'a F::Output>)
        requires
            old(self.glimpse_)@.wf(),
        ensures
            final(self.glimpse_)@.wf(),
            final(self.glimpse_)@ == old(self.glimpse_)@.fade_next(cancelled, waker),
            r == old(self.glimpse_)@.fade_round(cancelled),
    {
        if self.glimpse_.is_faded_() {
            match self.glimpse_.try_peek() {
                Some(x) => PeekRound::Ready(Ok(x)),
                None => vstd::pervasive::unreached(),
            }
        } else if cancelled {
            PeekRound::Ready(Err(SnapshotError::Cancelled))
        } else {
            self.glimpse_.keep_fade_waker_(waker);
            PeekRound::Pending
        }
    }
}

} // verus!
