//! The viewers of a glimpse: their nodes, the walk from a node to the head of its
//! list, and the three ways of peeking.
use crate::error::SnapshotError;
use crate::glimpse::Glimpse;
use crate::state::{Spin, StUtils};
use std::future::Future;
use vstd::prelude::*;

verus! {

/// Where a node stands in its list. Nodes are named by their index in the glimpse.
#[derive(Clone, Copy, Debug, PartialEq, Eq)]
pub enum SnapshotLink {
    Head { next_: Option<usize>, tail_: Option<usize> },
    Node { prev_: Option<usize>, next_: Option<usize> },
}

/// What a glimpse keeps for one snapshot.
pub struct SnapshotNode<W> {
    /// Whether the snapshot has not been released yet.
    pub live_: bool,
    /// Whether a writer holds the node's lock, so that no reader gets in.
    pub lock_: bool,
    /// Whether the node knows the way to the glimpse.
    pub glimpse_: bool,
    /// How to wake the task that waits on the snapshot.
    pub wake_: Option<W>,
    pub link_: SnapshotLink,
}

impl<W> SnapshotNode<W> {
    /// The node before this one, towards the head.
    pub open spec fn prev(self) -> Option<usize> {
        match self.link_ {
            SnapshotLink::Head { .. } => None,
            SnapshotLink::Node { prev_, .. } => prev_,
        }
    }

    /// A node that starts a list of its own.
    pub open spec fn fresh(glimpse: bool) -> Self {
        SnapshotNode {
            live_: true,
            lock_: false,
            glimpse_: glimpse,
            wake_: None,
            link_: SnapshotLink::Head { next_: None, tail_: None },
        }
    }

    /// A node that starts a list, and knows the way to the glimpse if `glimpse` says so.
    pub fn head(glimpse: bool) -> (r: Self)
        ensures
            r == Self::fresh(glimpse),
    {
        SnapshotNode {
            live_: true,
            lock_: false,
            glimpse_: glimpse,
            wake_: None,
            link_: SnapshotLink::Head { next_: None, tail_: None },
        }
    }

    /// A node between two others. It finds the glimpse through the ones before it.
    pub fn node(prev: Option<usize>, next: Option<usize>) -> (r: Self)
        ensures
            r == (SnapshotNode::<W> {
                live_: true,
                lock_: false,
                glimpse_: false,
                wake_: None,
                link_: SnapshotLink::Node { prev_: prev, next_: next },
            }),
    {
        SnapshotNode {
            live_: true,
            lock_: false,
            glimpse_: false,
            wake_: None,
            link_: SnapshotLink::Node { prev_: prev, next_: next },
        }
    }

    pub fn prev_ptr(&self) -> (r: Option<usize>)
        ensures
            r == self.prev(),
    {
        match self.link_ {
            SnapshotLink::Head { .. } => None,
            SnapshotLink::Node { prev_, .. } => prev_,
        }
    }

    /// Stores the waker that `get_waker` makes, unless there is one already: then that
    /// one is the error and `get_waker` is not called.
    pub fn try_init_waker_<G: FnOnce() -> W>(&mut self, get_waker: G) -> (r: Result<&W, &W>)
        requires
            old(self).wake_ is None ==> call_requires(get_waker, ()),
        ensures
            match old(self).wake_ {
                Some(existing) => r == Err::<&W, &W>(&existing) && *final(self) == *old(self),
                None => match r {
                    Ok(waker) => {
                        &&& call_ensures(get_waker, (), *waker)
                        &&& *final(self) == (SnapshotNode::<W> {
                            wake_: Some(*waker),
                            ..*old(self)
                        })
                    },
                    Err(_) => false,
                },
            },
    {
        if self.wake_.is_some() {
            Err(self.wake_.as_ref().unwrap())
        } else {
            self.wake_ = Some(get_waker());
            Ok(self.wake_.as_ref().unwrap())
        }
    }
}

/// Every link to a previous node points to an earlier one, so that walking back ends.
pub open spec fn links_lead_back<W>(nodes: Seq<SnapshotNode<W>>) -> bool {
    forall|i: int|
        0 <= i < nodes.len() ==> match (#[trigger] nodes[i]).prev() {
            Some(p) => p < i,
            None => true,
        }
}

/// The head that the node at `at` belongs to: walking back from it, the glimpse's own
/// head as soon as a node knows the way to a glimpse that has one, else the first node
/// with nothing before it. None if the walk comes to a node that a writer has locked.
pub open spec fn find_head<W>(
    nodes: Seq<SnapshotNode<W>>,
    head: Option<usize>,
    at: int,
) -> Option<int>
    decreases at,
{
    if nodes[at].lock_ {
        None
    } else if nodes[at].glimpse_ && head is Some {
        Some(head->0 as int)
    } else {
        match nodes[at].prev() {
            Some(p) if p < at => find_head(nodes, head, p as int),
            _ => Some(at),
        }
    }
}

pub proof fn lemma_find_head_in_range<W>(
    nodes: Seq<SnapshotNode<W>>,
    head: Option<usize>,
    at: int,
)
    requires
        0 <= at < nodes.len(),
        head matches Some(h) ==> h < nodes.len(),
    ensures
        find_head(nodes, head, at) matches Some(h) ==> 0 <= h < nodes.len(),
    decreases at,
{
    match nodes[at].prev() {
        Some(p) if p < at => lemma_find_head_in_range(nodes, head, p as int),
        _ => {},
    }
}

/// Where the walk ends, if the glimpse has no head of its own: at an earlier node or
/// the same, with nothing before it, and walking on from there stays there.
pub proof fn law_walk_ends_at_a_first_node<W>(nodes: Seq<SnapshotNode<W>>, at: int)
    requires
        0 <= at < nodes.len(),
        links_lead_back(nodes),
    ensures
        find_head(nodes, None, at) matches Some(h) ==> {
            &&& 0 <= h <= at
            &&& nodes[h].prev() is None
            &&& !nodes[h].lock_
            &&& find_head(nodes, None, h) == Some(h)
        },
    decreases at,
{
    match nodes[at].prev() {
        Some(p) if p < at => law_walk_ends_at_a_first_node(nodes, p as int),
        _ => {},
    }
}

/// What comes of asking for a guard that somebody else holds: the end of the task if
/// it is cancelled, one more round if not.
pub open spec fn refused<T>(cancelled: bool) -> Spin<Result<T, SnapshotError>> {
    if cancelled {
        Spin::Done(Err(SnapshotError::Cancelled))
    } else {
        Spin::Again
    }
}

/// What a cancelled peek found, to a viewer that does not wait.
pub open spec fn nothing_yet<R>(found: Result<R, SnapshotError>) -> Result<
    Option<R>,
    SnapshotError,
> {
    match found {
        Ok(x) => Ok(Some(x)),
        Err(SnapshotError::Cancelled) => Ok(None),
        Err(e) => Err(e),
    }
}

/// What one round of polling came to.
#[derive(Debug, PartialEq, Eq)]
pub enum PeekRound<R> {
    /// The poll is over, with this result.
    Ready(Result<R, SnapshotError>),
    /// The poll is over: the task will be woken.
    Pending,
    /// Nothing was decided: poll once more.
    Again,
    /// The lock on the future is held: poll the future, then hand in what it gave.
    PollFuture,
}

/// A viewer of a glimpse's output.
pub struct Snapshot {
    at_: usize,
}

impl Snapshot {
    /// The index of the snapshot's node.
    pub closed spec fn at(self) -> int {
        self.at_ as int
    }

    pub(crate) fn from_index_(at: usize) -> (r: Self)
        ensures
            r.at() == at,
    {
        Snapshot { at_: at }
    }

    pub(crate) fn index_(&self) -> (r: usize)
        ensures
            r == self.at(),
    {
        self.at_
    }

    /// The output if it is there and can be seen right now.
    pub fn try_peek<'a, F: Future, W>(&self, glimpse: &'a mut Glimpse<F, W>) -> (r: Result<
        Option<&'a F::Output>,
        SnapshotError,
    >)
        requires
            old(glimpse)@.wf(),
            old(glimpse)@.owns(self.at()),
        ensures
            final(glimpse)@.wf(),
            final(glimpse)@ == old(glimpse)@.snapshot_next(self.at()),
            r == old(glimpse)@.try_peek_result(self.at()),
    {
        match self.spin_peek().may_cancel_with(glimpse, true) {
            Spin::Done(found) => Snapshot::without_waiting(found),
            Spin::Again => vstd::pervasive::unreached(),
        }
    }

    /// Looks like [`Snapshot::try_peek`] and finds the same, but leaves the glimpse alone:
    /// so any number of viewers can hold the output at one time.
    pub fn look<'a, F: Future, W>(&self, glimpse: &'a Glimpse<F, W>) -> (r: Result<
        Option<&'a F::Output>,
        SnapshotError,
    >)
        requires
            glimpse@.wf(),
            glimpse@.owns(self.at()),
        ensures
            r == glimpse@.try_peek_result(self.at()),
    {
        match glimpse.find_head_(self.at_, true) {
            Spin::Done(Ok(head)) => if glimpse.node_(head).glimpse_ {
                Ok(glimpse.try_peek())
            } else {
                Err(SnapshotError::GlimpseMissing)
            },
            _ => Ok(None),
        }
    }

    /// What a peek that was cancelled from the start means to a viewer that does not
    /// wait: being cancelled is only having found nothing yet.
    pub fn without_waiting<R>(found: Result<R, SnapshotError>) -> (r: Result<
        Option<R>,
        SnapshotError,
    >)
        ensures
            r == nothing_yet(found),
    {
        match found {
            Ok(x) => Ok(Some(x)),
            Err(SnapshotError::Cancelled) => Ok(None),
            Err(e) => Err(e),
        }
    }

    /// A task that looks for the output, round after round.
    pub fn spin_peek(&self) -> (r: SnapshotPeekTask<'_>)
        ensures
            r.target() == *self,
    {
        SnapshotPeekTask::new(self)
    }

    /// Waits for the output, to be woken when it is there.
    pub fn peek_async(&self) -> (r: PeekAsync<'_>)
        ensures
            r.target() == *self,
    {
        PeekAsync(self)
    }

    /// Another snapshot, which knows the way to the glimpse if this one does.
    pub fn clone<F: Future, W>(&self, glimpse: &mut Glimpse<F, W>) -> (r: Snapshot)
        requires
            old(glimpse)@.wf(),
            old(glimpse)@.owns(self.at()),
        ensures
            final(glimpse)@.wf(),
            final(glimpse)@ == old(glimpse)@.placed(
                SnapshotNode::fresh(old(glimpse)@.nodes[self.at()].glimpse_),
            ),
            r.at() == old(glimpse)@.nodes.len(),
            final(glimpse)@.owns(r.at()),
            final(glimpse)@.owns(self.at()),
    {
        let knows: bool = glimpse.node_(self.at_).glimpse_;
        glimpse.place(SnapshotNode::head(knows))
    }

    /// Gives the snapshot up. What comes back are the wakers of the tasks to wake: if it
    /// was this snapshot's turn to poll the future, of all others that wait, so that one of
    /// them takes the turn; if the fading of the glimpse has nothing left to wait for, of
    /// the task that does that.
    pub fn release<F: Future, W>(self, glimpse: &mut Glimpse<F, W>) -> (r: Vec<W>)
        requires
            old(glimpse)@.wf(),
            old(glimpse)@.owns(self.at()),
            !old(glimpse)@.polling(self.at()),
        ensures
            final(glimpse)@.wf(),
            final(glimpse)@ == old(glimpse)@.released(self.at()),
            r@ == old(glimpse)@.release_wakers(self.at()),
    {
        glimpse.release_(self.at_)
    }

    /// How a snapshot shows itself: its address, those of the nodes before and after it,
    /// and the glimpse if it knows the way to it, all as text.
    pub fn debug_text(addr: &str, prev: &str, next: &str, glimpse: Option<&str>) -> (r: String)
        ensures
            r@ == "Snapshot["@ + addr@ + ", prev("@ + prev@ + "), next("@ + next@ + ")"@ + (
            match glimpse {
                Some(x) => ", glimpse("@ + x@ + ")]"@,
                None => Seq::empty(),
            }) + "]"@,
    {
        let mut text = String::new();
        text.append("Snapshot[");
        text.append(addr);
        text.append(", prev(");
        text.append(prev);
        text.append("), next(");
        text.append(next);
        text.append(")");
        let ghost links = text@;
        match glimpse {
            Some(x) => {
                text.append(", glimpse(");
                text.append(x);
                text.append(")]");
                assert(text@ =~= links + (", glimpse("@ + x@ + ")]"@));
            },
            None => {
                assert(text@ =~= links + Seq::<char>::empty());
            },
        }
        text.append("]");
        assert(Seq::<char>::empty() + "Snapshot["@ =~= "Snapshot["@);
        text
    }

    /// What a task does that was refused a guard.
    pub fn guard_refused<T>(cancelled: bool) -> (r: Spin<Result<T, SnapshotError>>)
        ensures
            r == refused::<T>(cancelled),
    {
        if cancelled {
            Spin::Done(Err(SnapshotError::Cancelled))
        } else {
            Spin::Again
        }
    }

    /// Walks back from the node at `at` to the head of its list, reading each node
    /// under its lock.
    pub fn try_find_head_<W>(
        nodes: &Vec<SnapshotNode<W>>,
        head: Option<usize>,
        at: usize,
        cancelled: bool,
    ) -> (r: Spin<Result<usize, SnapshotError>>)
        requires
            at < nodes.len(),
            links_lead_back(nodes@),
        ensures
            match find_head(nodes@, head, at as int) {
                Some(found) => r matches Spin::Done(Ok(h)) && h == found,
                None => r == refused::<usize>(cancelled),
            },
    {
        let mut curr: usize = at;
        loop
            invariant
                at < nodes.len(),
                curr < nodes.len(),
                links_lead_back(nodes@),
                find_head(nodes@, head, curr as int) == find_head(nodes@, head, at as int),
            decreases curr,
        {
            if nodes[curr].lock_ {
                return Snapshot::guard_refused(cancelled);
            }
            if nodes[curr].glimpse_ {
                if let Some(found) = head {
                    return Spin::Done(Ok(found));
                }
            }
            match nodes[curr].prev_ptr() {
                None => return Spin::Done(Ok(curr)),
                Some(prev) => {
                    curr = prev;
                },
            }
        }
    }
}

/// The task of looking for the output from a snapshot, round after round.
pub struct SnapshotPeekTask<'a>(&'a Snapshot);

impl<'a> SnapshotPeekTask<'a> {
    /// The snapshot that the task looks from.
    pub closed spec fn target(self) -> Snapshot {
        *self.0
    }

    pub fn new(snapshot: &'a Snapshot) -> (r: Self)
        ensures
            r.target() == *snapshot,
    {
        SnapshotPeekTask(snapshot)
    }

    /// One round: finds the head of the snapshot's list and through it the glimpse,
    /// remembers the way, and looks for the output.
    pub fn may_cancel_with<'g, F: Future, W>(
        self,
        glimpse: &'g mut Glimpse<F, W>,
        cancelled: bool,
    ) -> (r: Spin<Result<&'g F::Output, SnapshotError>>)
        requires
            old(glimpse)@.wf(),
            old(glimpse)@.owns(self.target().at()),
        ensures
            final(glimpse)@.wf(),
            final(glimpse)@ == old(glimpse)@.snapshot_next(self.target().at()),
            r == old(glimpse)@.snapshot_round(self.target().at(), cancelled),
    {
        let at: usize = self.0.at_;
        let head: usize = match glimpse.find_head_(at, cancelled) {
            Spin::Done(Ok(head)) => head,
            Spin::Done(Err(e)) => return Spin::Done(Err(e)),
            Spin::Again => return Spin::Again,
        };
        if !glimpse.node_(head).glimpse_ {
            return Spin::Done(Err(SnapshotError::GlimpseMissing));
        }
        glimpse.adopt_(at);
        match glimpse.spin_peek().may_cancel_with(cancelled) {
            Spin::Done(Some(x)) => Spin::Done(Ok(x)),
            Spin::Done(None) => Spin::Done(Err(SnapshotError::Cancelled)),
            Spin::Again => Spin::Again,
        }
    }

    /// One round of a task that nobody cancels, from a snapshot whose way to the
    /// glimpse is not lost.
    pub fn wait<'g, F: Future, W>(self, glimpse: &'g mut Glimpse<F, W>) -> (r: Spin<
        &'g F::Output,
    >)
        requires
            old(glimpse)@.wf(),
            old(glimpse)@.owns(self.target().at()),
            old(glimpse)@.barred(self.target().at()) || old(glimpse)@.reaches(self.target().at()),
        ensures
            final(glimpse)@.wf(),
            final(glimpse)@ == old(glimpse)@.snapshot_next(self.target().at()),
            match old(glimpse)@.output() {
                Some(x) if old(glimpse)@.reaches(self.target().at()) => r == Spin::<
                    &'g F::Output,
                >::Done(&x),
                _ => r == Spin::<&'g F::Output>::Again,
            },
    {
        match self.may_cancel_with(glimpse, false) {
            Spin::Done(Ok(x)) => Spin::Done(x),
            Spin::Done(Err(_)) => vstd::pervasive::unreached(),
            Spin::Again => Spin::Again,
        }
    }
}

/// A wait for the output from a snapshot that has not begun yet.
pub struct PeekAsync<'a>(&'a Snapshot);

impl<'a> PeekAsync<'a> {
    /// The snapshot that is to wait.
    pub closed spec fn target(self) -> Snapshot {
        *self.0
    }

    /// The wait, as a future that asks in each round whether it is cancelled.
    pub fn may_cancel_with(self) -> (r: PeekFuture<'a>)
        ensures
            r.target() == self.target(),
    {
        PeekFuture::new(self.0)
    }
}

/// A wait for the output from a snapshot.
pub struct PeekFuture<'a> {
    snapshot_: &'a Snapshot,
}

impl<'a> PeekFuture<'a> {
    /// The snapshot that waits.
    pub closed spec fn target(self) -> Snapshot {
        *self.snapshot_
    }

    pub fn new(snapshot: &'a Snapshot) -> (r: Self)
        ensures
            r.target() == *snapshot,
    {
        PeekFuture { snapshot_: snapshot }
    }

    /// One round of polling:
    ///
    /// 1. a snapshot that is not queued gives the output if it sees it, and else joins
    ///    the queue, with `waker`, unless it is cancelled;
    /// 2. one that is queued, while it is another's turn to poll the pending future, is
    ///    pending until the output is there;
    /// 3. one that is queued, and is the first to poll the future or has the turn to poll
    ///    it again, locks it. What the future gives then goes to [`PeekFuture::resume`].
    pub fn poll<'g, F: Future, W>(
        &self,
        glimpse: &'g mut Glimpse<F, W>,
        cancelled: bool,
        waker: W,
    ) -> (r: PeekRound<&'g F::Output>)
        requires
            old(glimpse)@.wf(),
            old(glimpse)@.owns(self.target().at()),
        ensures
            final(glimpse)@.wf(),
            final(glimpse)@ == old(glimpse)@.poll_next(self.target().at(), cancelled, waker),
            r == old(glimpse)@.poll_round(self.target().at(), cancelled),
    {
        let at: usize = self.snapshot_.at_;
        if glimpse.node_(at).lock_ {
            return match Snapshot::guard_refused(cancelled) {
                Spin::Done(e) => PeekRound::Ready(e),
                Spin::Again => PeekRound::Again,
            };
        }
        if !glimpse.node_(at).glimpse_ {
            return PeekRound::Ready(Err(SnapshotError::GlimpseMissing));
        }
        if glimpse.is_queued_(at) {
            let v: usize = glimpse.state().value();
            if StUtils::expect_future_ready(v) {
                return match glimpse.try_peek() {
                    Some(x) => PeekRound::Ready(Ok(x)),
                    None => vstd::pervasive::unreached(),
                };
            }
            if StUtils::expect_future_pending(v) && !glimpse.has_turn_(at) {
                return PeekRound::Pending;
            }
            if cancelled {
                return PeekRound::Ready(Err(SnapshotError::Cancelled));
            }
            if glimpse.begin_(at) {
                PeekRound::PollFuture
            } else {
                PeekRound::Again
            }
        } else {
            if self.sees_output_(glimpse) {
                return match glimpse.try_peek() {
                    Some(x) => PeekRound::Ready(Ok(x)),
                    None => vstd::pervasive::unreached(),
                };
            }
            if cancelled {
                return PeekRound::Ready(Err(SnapshotError::Cancelled));
            }
            glimpse.enqueue_(at, waker);
            PeekRound::Again
        }
    }

    /// Whether a look that does not wait finds the output.
    fn sees_output_<F: Future, W>(&self, glimpse: &mut Glimpse<F, W>) -> (r: bool)
        requires
            old(glimpse)@.wf(),
            old(glimpse)@.owns(self.target().at()),
            old(glimpse)@.nodes[self.target().at()].glimpse_,
        ensures
            final(glimpse)@ == old(glimpse)@,
            final(glimpse)@.wf(),
            r == (old(glimpse)@.output() is Some && old(glimpse)@.reaches(self.target().at())),
    {
        let r = matches!(self.snapshot_.try_peek(glimpse), Ok(Some(_)));
        proof {
            let before = old(glimpse)@;
            let at = self.target().at();
            assert(before.adopted(at).nodes =~= before.nodes);
            assert(before.adopted(at) =~= before);
        }
        r
    }

    /// Takes in what the future gave when it was polled: nothing if it is not ready, its
    /// output if it is. The poll of the snapshot is pending either way. Without the output
    /// it is this snapshot's turn to poll again, when the future wakes it; with the output
    /// the wakers of all that are queued come back, in their order.
    pub fn resume<F: Future, W>(
        &self,
        glimpse: &mut Glimpse<F, W>,
        polled: Option<F::Output>,
    ) -> (r: Vec<W>)
        requires
            old(glimpse)@.wf(),
            old(glimpse)@.polling(self.target().at()),
        ensures
            final(glimpse)@.wf(),
            final(glimpse)@ == old(glimpse)@.resumed(self.target().at(), polled),
            polled is None ==> r@ == Seq::<W>::empty(),
            polled is Some ==> r@ == old(glimpse)@.wakers(),
    {
        glimpse.resume_(self.snapshot_.at_, polled)
    }

    /// Ends the wait, at any time but while polling the future. What comes back, if it was
    /// this snapshot's turn to poll, are the wakers of all others that wait, so that one of
    /// them takes the turn.
    pub fn leave<F: Future, W>(&self, glimpse: &mut Glimpse<F, W>) -> (r: Vec<W>)
        requires
            old(glimpse)@.wf(),
            old(glimpse)@.owns(self.target().at()),
            !old(glimpse)@.polling(self.target().at()),
        ensures
            final(glimpse)@.wf(),
            final(glimpse)@ == old(glimpse)@.left(self.target().at()),
            r@ == old(glimpse)@.leave_wakers(self.target().at()),
    {
        glimpse.leave_(self.snapshot_.at_)
    }

    /// Lets go of the future when polling it came to no end.
    pub fn abandon<F: Future, W>(&self, glimpse: &mut Glimpse<F, W>)
        requires
            old(glimpse)@.wf(),
            old(glimpse)@.polling(self.target().at()),
        ensures
            final(glimpse)@.wf(),
            final(glimpse)@ == old(glimpse)@.abandoned(self.target().at()),
    {
        glimpse.give_up_(self.snapshot_.at_)
    }
}

} // verus!
