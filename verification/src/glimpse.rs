//! The glimpse: the future or its output, the state word, the nodes of its snapshots
//! and the queue of those that wait.
use crate::error::SnapshotError;
use crate::fade::FadeAsync;
use crate::snapshot::{
    find_head, lemma_find_head_in_range, links_lead_back, refused, PeekRound, Snapshot,
    SnapshotNode,
};
use crate::state::{Change, GlimpseState, Spin, StUtils};
use std::future::Future;
use vstd::prelude::*;

verus! {

/// The future, until it is ready, and its output from then on.
pub enum FutOrOut<F: Future> {
    Fut(F),
    Out(F::Output),
}

impl<F: Future> FutOrOut<F> {
    pub fn new(future: F) -> (r: Self)
        ensures
            r == FutOrOut::<F>::Fut(future),
    {
        FutOrOut::Fut(future)
    }
}

/// Whether `at` is the node of a snapshot that was not released.
pub open spec fn is_live<W>(nodes: Seq<SnapshotNode<W>>, at: int) -> bool {
    0 <= at < nodes.len() && nodes[at].live_
}

/// Whether a writer holds the lock of the node at `at`.
pub open spec fn is_locked<W>(nodes: Seq<SnapshotNode<W>>, at: int) -> bool {
    0 <= at < nodes.len() && nodes[at].lock_
}

/// Whether the queue holds the node at `at`.
pub open spec fn is_among(queue: Seq<usize>, at: int) -> bool {
    exists|i: int| 0 <= i < queue.len() && queue[i] == at
}

/// Every node in the queue is there once, live, and with a waker.
pub open spec fn waiters_have_wakers<W>(queue: Seq<usize>, nodes: Seq<SnapshotNode<W>>) -> bool {
    &&& queue.no_duplicates()
    &&& forall|i: int|
        0 <= i < queue.len() ==> is_live(nodes, #[trigger] queue[i] as int)
            && nodes[queue[i] as int].wake_ is Some
}

/// Only a live node in the queue is locked, and no two are.
pub open spec fn one_waiter_polls<W>(queue: Seq<usize>, nodes: Seq<SnapshotNode<W>>) -> bool {
    &&& forall|at: int| #[trigger]
        is_locked(nodes, at) ==> is_live(nodes, at) && is_among(queue, at)
    &&& forall|i: int, j: int| is_locked(nodes, i) && is_locked(nodes, j) ==> i == j
}

/// Whether a writer holds the lock of any node.
pub open spec fn any_locked<W>(nodes: Seq<SnapshotNode<W>>) -> bool {
    exists|at: int| is_locked(nodes, at)
}

/// The node whose turn it is to poll, if there is one, waits, and no other node is locked.
pub open spec fn turn_is_kept<W>(
    poller: Option<usize>,
    queue: Seq<usize>,
    nodes: Seq<SnapshotNode<W>>,
) -> bool {
    poller matches Some(p) ==> {
        &&& is_among(queue, p as int)
        &&& forall|at: int| #[trigger] is_locked(nodes, at) ==> at == p
    }
}

/// What a glimpse holds, as a value.
#[verifier::ext_equal]
pub struct GlimpseView<F: Future, W> {
    /// The state word.
    pub word: usize,
    /// The node that starts the list of snapshots, if one is set.
    pub head: Option<usize>,
    /// How to wake the task that fades the glimpse.
    pub fade: Option<W>,
    /// The future or its output.
    pub fout: FutOrOut<F>,
    /// The node whose turn it is to poll the future again: the one that polled it last,
    /// when it was not ready.
    pub poller: Option<usize>,
    /// The nodes that wait for the output, first come first.
    pub queue: Seq<usize>,
    /// The nodes of all snapshots that were ever taken.
    pub nodes: Seq<SnapshotNode<W>>,
}

impl<F: Future, W> GlimpseView<F, W> {
    pub open spec fn locked(self) -> bool {
        StUtils::mutex_acquired(self.word)
    }

    pub open spec fn ready(self) -> bool {
        StUtils::future_ready(self.word)
    }

    pub open spec fn pending(self) -> bool {
        StUtils::future_pending(self.word)
    }

    /// The output, once there is one.
    pub open spec fn output(self) -> Option<F::Output> {
        match self.fout {
            FutOrOut::Fut(_) => None,
            FutOrOut::Out(x) => Some(x),
        }
    }

    /// Whether `at` is the node of a snapshot that was not released.
    pub open spec fn owns(self, at: int) -> bool {
        is_live(self.nodes, at)
    }

    /// Whether any snapshot was not released.
    pub open spec fn has_viewers(self) -> bool {
        exists|at: int| is_live(self.nodes, at)
    }

    /// Whether the node at `at` waits for the output.
    pub open spec fn queued(self, at: int) -> bool {
        is_among(self.queue, at)
    }

    /// Whether the snapshot at `at` is polling the future right now.
    pub open spec fn polling(self, at: int) -> bool {
        is_locked(self.nodes, at)
    }

    /// Whether any snapshot is polling the future right now.
    pub open spec fn busy(self) -> bool {
        any_locked(self.nodes)
    }

    /// What holds of every glimpse:
    /// the ready flag is set exactly when the output is there, and never together with
    /// the pending flag; the links between nodes lead back; only snapshots that are
    /// there wait, each at one place in the queue and with a waker; at most one
    /// snapshot polls the future, and it does so under the lock on the future, before
    /// the output is there. The one whose turn it is to poll again waits in the queue;
    /// nobody else polls, and the future is pending as long as that one does not poll.
    pub open spec fn wf(self) -> bool {
        &&& self.ready() <==> self.fout is Out
        &&& !(self.ready() && self.pending())
        &&& links_lead_back(self.nodes)
        &&& self.head matches Some(h) ==> h < self.nodes.len()
        &&& waiters_have_wakers(self.queue, self.nodes)
        &&& one_waiter_polls(self.queue, self.nodes)
        &&& self.busy() ==> self.locked() && !self.ready()
        &&& self.pending() <==> self.poller is Some && !self.busy()
        &&& self.poller is Some ==> !self.ready()
        &&& turn_is_kept(self.poller, self.queue, self.nodes)
    }

    /// One round of looking for the output.
    pub open spec fn peek_round<'a>(self, cancelled: bool) -> Spin<Option<&'a F::Output>> {
        match self.output() {
            Some(x) => Spin::Done(Some(&x)),
            None => if cancelled {
                Spin::Done(None)
            } else {
                Spin::Again
            },
        }
    }

    /// Whether the way from the node at `at` to the glimpse is open: the head of its
    /// list can be read and knows the glimpse.
    pub open spec fn reaches(self, at: int) -> bool {
        match find_head(self.nodes, self.head, at) {
            Some(h) => !self.nodes[h].lock_ && self.nodes[h].glimpse_,
            None => false,
        }
    }

    /// Whether the walk from the node at `at`, or its end, meets a locked node.
    pub open spec fn barred(self, at: int) -> bool {
        match find_head(self.nodes, self.head, at) {
            Some(h) => self.nodes[h].lock_,
            None => true,
        }
    }

    /// Whether the node at `at` starts its list and knows the glimpse, and the glimpse has
    /// no other head: as every snapshot does that was taken from the glimpse.
    pub open spec fn starts_in_sight(self, at: int) -> bool {
        self.head is None && self.nodes[at].link_ is Head && self.nodes[at].glimpse_
    }

    /// One round of looking for the output from the node at `at`.
    pub open spec fn snapshot_round<'a>(self, at: int, cancelled: bool) -> Spin<
        Result<&'a F::Output, SnapshotError>,
    > {
        if self.barred(at) {
            refused(cancelled)
        } else if !self.reaches(at) {
            Spin::Done(Err(SnapshotError::GlimpseMissing))
        } else {
            match self.output() {
                Some(x) => Spin::Done(Ok(&x)),
                None => refused(cancelled),
            }
        }
    }

    /// What the snapshot at `at` finds when it does not wait: nothing yet while the
    /// output is not there or the way to it is barred, and an error once the way is lost.
    pub open spec fn try_peek_result<'a>(self, at: int) -> Result<
        Option<&'a F::Output>,
        SnapshotError,
    > {
        if self.barred(at) {
            Ok(None)
        } else if !self.reaches(at) {
            Err(SnapshotError::GlimpseMissing)
        } else {
            match self.output() {
                Some(x) => Ok(Some(&x)),
                None => Ok(None),
            }
        }
    }

    /// After a node that found the way to the glimpse remembered it.
    pub open spec fn adopted(self, at: int) -> Self {
        GlimpseView {
            nodes: self.nodes.update(at, SnapshotNode { glimpse_: true, ..self.nodes[at] }),
            ..self
        }
    }

    /// After a round of looking for the output from the node at `at`.
    pub open spec fn snapshot_next(self, at: int) -> Self {
        if self.reaches(at) {
            self.adopted(at)
        } else {
            self
        }
    }

    /// Whether it is the turn of the node at `at` to poll the pending future again.
    pub open spec fn has_turn(self, at: int) -> bool {
        self.poller matches Some(p) && p == at
    }

    /// One round of polling for the output from the node at `at`.
    ///
    /// A node that does not wait yet gives the output if it can see it, else it joins
    /// the queue. A node that waits gives the output if it is there, leaves the future
    /// alone if that is pending and it is another's turn to poll it, and else polls it.
    pub open spec fn poll_round<'a>(self, at: int, cancelled: bool) -> PeekRound<&'a F::Output> {
        if self.nodes[at].lock_ {
            if cancelled {
                PeekRound::Ready(Err(SnapshotError::Cancelled))
            } else {
                PeekRound::Again
            }
        } else if !self.nodes[at].glimpse_ {
            PeekRound::Ready(Err(SnapshotError::GlimpseMissing))
        } else if self.output() is Some && (self.queued(at) || self.reaches(at)) {
            PeekRound::Ready(Ok(&self.output()->0))
        } else if self.queued(at) && self.pending() && !self.has_turn(at) {
            PeekRound::Pending
        } else if cancelled {
            PeekRound::Ready(Err(SnapshotError::Cancelled))
        } else if !self.queued(at) || self.locked() {
            PeekRound::Again
        } else {
            PeekRound::PollFuture
        }
    }

    /// After the node at `at` joined the queue.
    pub open spec fn enqueued(self, at: int, waker: W) -> Self {
        GlimpseView {
            queue: self.queue.push(at as usize),
            nodes: self.nodes.update(at, SnapshotNode { wake_: Some(waker), ..self.nodes[at] }),
            ..self
        }
    }

    /// After the snapshot at `at` began to poll the future, which is not pending any more.
    pub open spec fn begun(self, at: int) -> Self {
        GlimpseView {
            word: Change::Begin.makes(self.word),
            nodes: self.nodes.update(at, SnapshotNode { lock_: true, ..self.nodes[at] }),
            ..self
        }
    }

    /// After a round of polling for the output from the node at `at`.
    pub open spec fn poll_next(self, at: int, cancelled: bool, waker: W) -> Self {
        match self.poll_round(at, cancelled) {
            PeekRound::PollFuture => self.begun(at),
            PeekRound::Again if !self.nodes[at].lock_ && !self.queued(at) => self.enqueued(
                at,
                waker,
            ),
            _ => self,
        }
    }

    /// After the snapshot at `at` let go of the future, with nothing recorded. The future
    /// is pending again if it was before.
    pub open spec fn abandoned(self, at: int) -> Self {
        GlimpseView {
            word: Change::Unlock.makes(
                if self.poller is Some {
                    Change::Pend.makes(self.word)
                } else {
                    self.word
                },
            ),
            nodes: self.nodes.update(at, SnapshotNode { lock_: false, ..self.nodes[at] }),
            ..self
        }
    }

    /// After the snapshot at `at` polled the future, which gave `polled`. If that is
    /// nothing, it is the snapshot's turn to poll again.
    pub open spec fn resumed(self, at: int, polled: Option<F::Output>) -> Self {
        match polled {
            None => GlimpseView { poller: Some(at as usize), ..self }.abandoned(at),
            Some(x) => GlimpseView {
                word: Change::Finish.makes(self.word),
                fout: FutOrOut::Out(x),
                poller: None,
                ..self
            }.woken().abandoned(at),
        }
    }

    /// After a node was added at the end.
    pub open spec fn placed(self, node: SnapshotNode<W>) -> Self {
        GlimpseView { nodes: self.nodes.push(node), ..self }
    }

    /// After every node forgot the way to the glimpse.
    pub open spec fn closed(self) -> Self {
        GlimpseView {
            head: None,
            nodes: Seq::new(
                self.nodes.len(),
                |i: int| SnapshotNode { glimpse_: false, ..self.nodes[i] },
            ),
            ..self
        }
    }

    /// After the node at `at` was taken out of the queue.
    pub open spec fn dequeued(self, at: int) -> Self {
        GlimpseView {
            queue: self.queue.remove_value(at as usize),
            nodes: self.nodes.update(at, SnapshotNode { wake_: None, ..self.nodes[at] }),
            ..self
        }
    }

    /// After the snapshot at `at` gave up waiting. If it was its turn to poll the future,
    /// that is nobody's turn now, and all others who wait are to try for it.
    pub open spec fn left(self, at: int) -> Self {
        let rest = self.dequeued(at);
        if self.has_turn(at) {
            GlimpseView {
                word: Change::Resign.makes(self.word),
                poller: None,
                ..rest
            }.woken()
        } else {
            rest
        }
    }

    /// Whom to wake when the snapshot at `at` gives up waiting.
    pub open spec fn leave_wakers(self, at: int) -> Seq<W> {
        if self.has_turn(at) {
            self.dequeued(at).wakers()
        } else {
            Seq::empty()
        }
    }

    /// After the snapshot at `at` was released, before the fading task is told.
    pub open spec fn dismissed(self, at: int) -> Self {
        let rest = self.left(at);
        GlimpseView {
            nodes: rest.nodes.update(at, SnapshotNode { live_: false, ..rest.nodes[at] }),
            ..rest
        }
    }

    /// Whether the glimpse has nothing left to wait for: the output is there and no
    /// snapshot is.
    pub open spec fn faded(self) -> bool {
        self.output() is Some && !self.has_viewers()
    }

    /// After the snapshot at `at` was released and the fading task, if there is nothing
    /// left to wait for, was told.
    pub open spec fn released(self, at: int) -> Self {
        let left = self.dismissed(at);
        if left.faded() {
            GlimpseView { fade: None, ..left }
        } else {
            left
        }
    }

    /// Whom to wake when the snapshot at `at` is released: those who are to try for its
    /// turn to poll, or the fading task if that has nothing left to wait for.
    pub open spec fn release_wakers(self, at: int) -> Seq<W> {
        if self.has_turn(at) {
            self.leave_wakers(at)
        } else {
            match self.fade {
                Some(waker) if self.dismissed(at).faded() => seq![waker],
                _ => Seq::empty(),
            }
        }
    }

    /// After the wakers of all queued nodes were taken.
    pub open spec fn woken(self) -> Self {
        GlimpseView {
            queue: Seq::empty(),
            nodes: Seq::new(
                self.nodes.len(),
                |i: int|
                    if self.queued(i) {
                        SnapshotNode { wake_: None, ..self.nodes[i] }
                    } else {
                        self.nodes[i]
                    },
            ),
            ..self
        }
    }

    /// The wakers of the queued nodes, in the order of the queue.
    pub open spec fn wakers(self) -> Seq<W> {
        Seq::new(self.queue.len(), |i: int| self.nodes[self.queue[i] as int].wake_->0)
    }
}

/// Captures the output of a future, and may spawn snapshots that look at it.
pub struct Glimpse<F: Future, W> {
    stat_: GlimpseState,
    head_: Option<usize>,
    fade_: Option<W>,
    fout_: FutOrOut<F>,
    poller_: Option<usize>,
    wake_queue_: Vec<usize>,
    nodes_: Vec<SnapshotNode<W>>,
}

impl<F: Future, W> View for Glimpse<F, W> {
    type V = GlimpseView<F, W>;

    closed spec fn view(&self) -> GlimpseView<F, W> {
        GlimpseView {
            word: self.stat_@,
            head: self.head_,
            fade: self.fade_,
            fout: self.fout_,
            poller: self.poller_,
            queue: self.wake_queue_@,
            nodes: self.nodes_@,
        }
    }
}

impl<F: Future, W> Glimpse<F, W> {
    /// A glimpse of `future`, which has not been polled and has no viewers.
    pub fn new(future: F) -> (r: Self)
        ensures
            r@.wf(),
            r@ == (GlimpseView::<F, W> {
                word: 0,
                head: None,
                fade: None,
                fout: FutOrOut::Fut(future),
                poller: None,
                queue: Seq::empty(),
                nodes: Seq::empty(),
            }),
    {
        let r = Glimpse {
            stat_: GlimpseState::new(),
            head_: None,
            fade_: None,
            fout_: FutOrOut::new(future),
            poller_: None,
            wake_queue_: Vec::new(),
            nodes_: Vec::new(),
        };
        proof {
            StUtils::law_zero_has_no_flag();
            assert(r@.queue =~= Seq::empty());
            assert(r@.nodes =~= Seq::empty());
        }
        r
    }

    /// The output, if it is there.
    pub fn try_peek(&self) -> (r: Option<&F::Output>)
        requires
            self@.wf(),
        ensures
            match self@.output() {
                Some(x) => r == Some(&x),
                None => r is None,
            },
    {
        match self.spin_peek().may_cancel_with(true) {
            Spin::Done(found) => found,
            Spin::Again => None,
        }
    }

    /// A task that looks for the output, round after round.
    pub fn spin_peek(&self) -> (r: GlimpsePeekTask<'_, F, W>)
        ensures
            r.target() == *self,
    {
        GlimpsePeekTask(self)
    }

    /// The state word.
    pub fn state(&self) -> (r: &GlimpseState)
        ensures
            r@ == self@.word,
    {
        &self.stat_
    }

    /// The node that starts the list of snapshots.
    pub fn head_snapshot_(&self) -> (r: Option<usize>)
        ensures
            r == self@.head,
    {
        self.head_
    }

    /// Takes the lock on the future if it is free, and says whether it did.
    pub fn try_lock(&mut self) -> (r: bool)
        requires
            old(self)@.wf(),
        ensures
            final(self)@.wf(),
            r == !old(self)@.locked(),
            final(self)@ == (GlimpseView {
                word: old(self)@.word | StUtils::K_MUTEX_FLAG,
                ..old(self)@
            }),
    {
        let r = self.stat_.try_change(Change::Lock);
        proof {
            let v = old(self)@.word;
            assert(StUtils::mutex_acquired(v) ==> v | StUtils::K_MUTEX_FLAG == v) by (bit_vector);
            old(self)@.law_mutex_keeps_wf();
        }
        r
    }

    /// Gives the lock on the future back.
    pub fn unlock(&mut self)
        requires
            old(self)@.wf(),
            old(self)@.locked(),
            forall|at: int| !old(self)@.polling(at),
        ensures
            final(self)@.wf(),
            final(self)@ == (GlimpseView {
                word: old(self)@.word & !StUtils::K_MUTEX_FLAG,
                ..old(self)@
            }),
    {
        let _ = self.stat_.try_change(Change::Unlock);
        proof {
            old(self)@.law_mutex_keeps_wf();
        }
    }

    /// The future, as long as it is not ready.
    pub fn future_mut(&mut self) -> (r: Option<&mut F>)
        requires
            old(self)@.wf(),
        ensures
            final(self)@.wf(),
            match r {
                Some(future) => {
                    &&& old(self)@.fout == FutOrOut::<F>::Fut(*future)
                    &&& final(self)@ == (GlimpseView {
                        fout: FutOrOut::Fut(*final(future)),
                        ..old(self)@
                    })
                },
                None => old(self)@.fout is Out && final(self)@ == old(self)@,
            },
    {
        match &mut self.fout_ {
            FutOrOut::Fut(future) => Some(future),
            FutOrOut::Out(_) => None,
        }
    }

    /// Adds a node for a snapshot.
    pub fn place(&mut self, node: SnapshotNode<W>) -> (r: Snapshot)
        requires
            old(self)@.wf(),
            node.live_,
            !node.lock_,
            node.prev() matches Some(p) ==> p < old(self)@.nodes.len(),
        ensures
            final(self)@.wf(),
            final(self)@ == old(self)@.placed(node),
            r.at() == old(self)@.nodes.len(),
            final(self)@.owns(r.at()),
    {
        let at: usize = self.nodes_.len();
        self.nodes_.push(node);
        proof {
            old(self)@.law_placed_keeps_wf(node);
        }
        Snapshot::from_index_(at)
    }

    /// A snapshot that knows the way to this glimpse.
    pub fn snapshot(&mut self) -> (r: Snapshot)
        requires
            old(self)@.wf(),
            old(self)@.head is None,
        ensures
            final(self)@.wf(),
            final(self)@ == old(self)@.placed(SnapshotNode::fresh(true)),
            r.at() == old(self)@.nodes.len(),
            final(self)@.owns(r.at()),
    {
        self.place(SnapshotNode::head(true))
    }

    /// Fades the glimpse: waits until the output is there and all snapshots are
    /// released. Whoever waited for that before waits no more.
    pub fn fade_async(&mut self) -> (r: FadeAsync<'_, F, W>)
        requires
            old(self)@.wf(),
        ensures
            r.glimpse_@.wf(),
            r.glimpse_@ == (GlimpseView { fade: None, ..old(self)@ }),
            *final(self) == *final(r.glimpse_),
    {
        self.fade_ = None;
        FadeAsync::new(self)
    }

    /// Takes the glimpse out of every snapshot's sight, as it must be before it goes.
    pub fn close(&mut self)
        requires
            old(self)@.wf(),
        ensures
            final(self)@.wf(),
            final(self)@ == old(self)@.closed(),
    {
        let ghost before = self@;
        self.head_ = None;
        let mut i: usize = 0;
        while i < self.nodes_.len()
            invariant
                i <= self.nodes_.len(),
                self@ == (GlimpseView { head: None, nodes: self.nodes_@, ..before }),
                self.nodes_@.len() == before.nodes.len(),
                forall|k: int|
                    0 <= k < i ==> #[trigger] self.nodes_@[k] == (SnapshotNode {
                        glimpse_: false,
                        ..before.nodes[k]
                    }),
                forall|k: int| i <= k < before.nodes.len() ==> self.nodes_@[k] == before.nodes[k],
            decreases self.nodes_.len() - i,
        {
            self.nodes_[i].glimpse_ = false;
            i = i + 1;
        }
        proof {
            assert(self@.nodes =~= before.closed().nodes);
            before.law_closed_keeps_wf();
        }
    }

    /// What the glimpse keeps for the snapshot at `at`.
    pub(crate) fn node_(&self, at: usize) -> (r: &SnapshotNode<W>)
        requires
            at < self@.nodes.len(),
        ensures
            *r == self@.nodes[at as int],
    {
        &self.nodes_[at]
    }

    pub(crate) fn is_queued_(&self, at: usize) -> (r: bool)
        ensures
            r == self@.queued(at as int),
    {
        let mut i: usize = 0;
        while i < self.wake_queue_.len()
            invariant
                i <= self.wake_queue_.len(),
                self@.queue == self.wake_queue_@,
                forall|k: int| 0 <= k < i ==> self.wake_queue_@[k] != at,
            decreases self.wake_queue_.len() - i,
        {
            if self.wake_queue_[i] == at {
                return true;
            }
            i = i + 1;
        }
        false
    }

    /// Looks for the head that the snapshot at `at` belongs to, and for a guard on it.
    pub(crate) fn find_head_(&self, at: usize, cancelled: bool) -> (r: Spin<
        Result<usize, SnapshotError>,
    >)
        requires
            self@.wf(),
            at < self@.nodes.len(),
        ensures
            self@.barred(at as int) ==> r == refused::<usize>(cancelled),
            !self@.barred(at as int) ==> {
                &&& r matches Spin::Done(Ok(h))
                &&& h < self@.nodes.len()
                &&& find_head(self@.nodes, self@.head, at as int) == Some(h as int)
            },
    {
        proof {
            lemma_find_head_in_range(self@.nodes, self@.head, at as int);
        }
        match Snapshot::try_find_head_(&self.nodes_, self.head_, at, cancelled) {
            Spin::Done(Ok(h)) if self.nodes_[h].lock_ => Snapshot::guard_refused(cancelled),
            found => found,
        }
    }

    /// Lets the node at `at` remember the way to the glimpse.
    pub(crate) fn adopt_(&mut self, at: usize)
        requires
            old(self)@.wf(),
            at < old(self)@.nodes.len(),
        ensures
            final(self)@.wf(),
            final(self)@ == old(self)@.adopted(at as int),
    {
        self.nodes_[at].glimpse_ = true;
        proof {
            assert(self@.nodes =~= old(self)@.adopted(at as int).nodes);
            old(self)@.law_adopted_keeps_wf(at as int);
        }
    }

    /// Puts the node at `at` at the end of the queue.
    pub(crate) fn enqueue_(&mut self, at: usize, waker: W)
        requires
            old(self)@.wf(),
            old(self)@.owns(at as int),
            !old(self)@.queued(at as int),
        ensures
            final(self)@.wf(),
            final(self)@ == old(self)@.enqueued(at as int, waker),
    {
        self.nodes_[at].wake_ = Some(waker);
        self.wake_queue_.push(at);
        proof {
            assert(self@.nodes =~= old(self)@.enqueued(at as int, waker).nodes);
            old(self)@.law_enqueued_keeps_wf(at as int, waker);
        }
    }

    /// Locks the future, and the node at `at`, for a poll. Says whether it did: not if
    /// the future is locked.
    pub(crate) fn begin_(&mut self, at: usize) -> (r: bool)
        requires
            old(self)@.wf(),
            old(self)@.owns(at as int),
            old(self)@.queued(at as int),
            !old(self)@.ready(),
            old(self)@.pending() ==> old(self)@.has_turn(at as int),
        ensures
            final(self)@.wf(),
            r == !old(self)@.locked(),
            r ==> final(self)@ == old(self)@.begun(at as int),
            !r ==> final(self)@ == old(self)@,
    {
        if !self.stat_.try_change(Change::Begin) {
            return false;
        }
        self.nodes_[at].lock_ = true;
        proof {
            assert(self@.nodes =~= old(self)@.begun(at as int).nodes);
            old(self)@.law_begun_keeps_wf(at as int);
        }
        true
    }

    /// Whether it is the turn of the node at `at` to poll the pending future again.
    pub(crate) fn has_turn_(&self, at: usize) -> (r: bool)
        ensures
            r == self@.has_turn(at as int),
    {
        match self.poller_ {
            Some(p) => p == at,
            None => false,
        }
    }

    /// Unlocks the future and the node at `at` after a poll.
    pub(crate) fn abandon_(&mut self, at: usize)
        requires
            old(self)@.locked(),
            old(self)@.poller is Some ==> !old(self)@.pending() && !old(self)@.ready(),
            at < old(self)@.nodes.len(),
        ensures
            final(self)@ == old(self)@.abandoned(at as int),
    {
        proof {
            StUtils::law_changes_touch_one_flag(self@.word);
        }
        if self.poller_.is_some() {
            let _ = self.stat_.try_change(Change::Pend);
        }
        let _ = self.stat_.try_change(Change::Unlock);
        self.nodes_[at].lock_ = false;
        proof {
            assert(self@.nodes =~= old(self)@.abandoned(at as int).nodes);
        }
    }

    /// Ends the poll of the future by the snapshot at `at` with nothing to record.
    pub(crate) fn give_up_(&mut self, at: usize)
        requires
            old(self)@.wf(),
            old(self)@.polling(at as int),
        ensures
            final(self)@.wf(),
            final(self)@ == old(self)@.abandoned(at as int),
    {
        let ghost before = self@;
        assert(is_locked(before.nodes, at as int));
        self.abandon_(at);
        proof {
            before.law_abandoned_keeps_wf(at as int);
        }
    }

    /// Records what the poll of the future by the snapshot at `at` gave, and unlocks
    /// both. Gives the wakers of the tasks to wake.
    pub(crate) fn resume_(&mut self, at: usize, polled: Option<F::Output>) -> (r: Vec<W>)
        requires
            old(self)@.wf(),
            old(self)@.polling(at as int),
        ensures
            final(self)@.wf(),
            final(self)@ == old(self)@.resumed(at as int, polled),
            polled is None ==> r@ == Seq::<W>::empty(),
            polled is Some ==> r@ == old(self)@.wakers(),
    {
        let ghost before = self@;
        proof {
            assert(is_locked(before.nodes, at as int));
            StUtils::law_changes_touch_one_flag(before.word);
        }
        let wakers: Vec<W> = match polled {
            None => {
                self.poller_ = Some(at);
                Vec::new()
            },
            Some(x) => {
                self.fout_ = FutOrOut::Out(x);
                self.poller_ = None;
                let _ = self.stat_.try_change(Change::Finish);
                self.wake_all_()
            },
        };
        self.abandon_(at);
        proof {
            before.law_resumed_keeps_wf(at as int, polled);
        }
        wakers
    }

    /// Whether any snapshot was not released.
    pub(crate) fn has_viewers_(&self) -> (r: bool)
        ensures
            r == self@.has_viewers(),
    {
        let mut i: usize = 0;
        while i < self.nodes_.len()
            invariant
                i <= self.nodes_.len(),
                self@.nodes == self.nodes_@,
                forall|k: int| 0 <= k < i ==> !is_live(self.nodes_@, k),
            decreases self.nodes_.len() - i,
        {
            if self.nodes_[i].live_ {
                assert(is_live(self@.nodes, i as int));
                return true;
            }
            i = i + 1;
        }
        assert forall|k: int| !is_live(self@.nodes, k) by {}
        false
    }

    /// Ends the wait of the snapshot at `at`. Gives the wakers of those who are to try for
    /// its turn to poll, if it had that.
    pub(crate) fn leave_(&mut self, at: usize) -> (r: Vec<W>)
        requires
            old(self)@.wf(),
            old(self)@.owns(at as int),
            !old(self)@.polling(at as int),
        ensures
            final(self)@.wf(),
            final(self)@ == old(self)@.left(at as int),
            r@ == old(self)@.leave_wakers(at as int),
    {
        let ghost before = self@;
        proof {
            before.queue.index_of_first_ensures(at);
            before.lemma_dequeued(at as int);
            before.law_left_keeps_wf(at as int);
        }
        let mut i: usize = 0;
        while i < self.wake_queue_.len() && self.wake_queue_[i] != at
            invariant
                i <= self.wake_queue_.len(),
                self@ == before,
                forall|k: int| 0 <= k < i ==> self.wake_queue_@[k] != at,
            decreases self.wake_queue_.len() - i,
        {
            i = i + 1;
        }
        if i < self.wake_queue_.len() {
            let _ = self.wake_queue_.remove(i);
        }
        self.nodes_[at].wake_ = None;
        proof {
            assert(self@.nodes =~= before.dequeued(at as int).nodes);
            assert(self@.queue =~= before.dequeued(at as int).queue);
        }
        if self.has_turn_(at) {
            let ghost rest = before.dequeued(at as int);
            self.poller_ = None;
            let _ = self.stat_.try_change(Change::Resign);
            let wakers = self.wake_all_();
            proof {
                assert(wakers@ =~= rest.wakers());
            }
            wakers
        } else {
            Vec::new()
        }
    }

    /// Releases the snapshot at `at`. Gives the wakers of those who are to try for its turn
    /// to poll, or of the task that fades the glimpse, if that has nothing left to wait for.
    pub(crate) fn release_(&mut self, at: usize) -> (r: Vec<W>)
        requires
            old(self)@.wf(),
            old(self)@.owns(at as int),
            !old(self)@.polling(at as int),
        ensures
            final(self)@.wf(),
            final(self)@ == old(self)@.released(at as int),
            r@ == old(self)@.release_wakers(at as int),
    {
        let ghost before = self@;
        let mut wakers: Vec<W> = self.leave_(at);
        self.nodes_[at].live_ = false;
        proof {
            assert(self@.nodes =~= before.dismissed(at as int).nodes);
            before.law_released_keeps_wf(at as int);
        }
        if self.is_faded_() {
            if let Some(waker) = self.fade_.take() {
                wakers.push(waker);
            }
        }
        wakers
    }

    /// Whether there is nothing left to wait for.
    pub(crate) fn is_faded_(&self) -> (r: bool)
        requires
            self@.wf(),
        ensures
            r == self@.faded(),
    {
        StUtils::expect_future_ready(self.stat_.value()) && !self.has_viewers_()
    }

    pub(crate) fn keep_fade_waker_(&mut self, waker: W)
        requires
            old(self)@.wf(),
        ensures
            final(self)@.wf(),
            final(self)@ == (GlimpseView { fade: Some(waker), ..old(self)@ }),
    {
        self.fade_ = Some(waker);
    }

    /// The address of the glimpse whose queue of waiting nodes stands at `queue`, if the
    /// queue stands `offset` bytes into the glimpse.
    pub fn glimpse_ptr_from_wake_queue_(queue: usize, offset: usize) -> (r: usize)
        requires
            offset <= queue,
        ensures
            r + offset == queue,
    {
        queue - offset
    }

    /// How a glimpse shows itself: its address, and its output once that is there, both
    /// as text.
    pub fn debug_text(output: Option<&str>, addr: &str) -> (r: String)
        ensures
            r@ == match output {
                Some(x) => "Glimpse("@ + x@ + "@"@ + addr@ + ")"@,
                None => "Glimpse@"@ + addr@,
            },
    {
        let mut text = String::new();
        match output {
            Some(x) => {
                text.append("Glimpse(");
                text.append(x);
                text.append("@");
                text.append(addr);
                text.append(")");
            },
            None => {
                text.append("Glimpse@");
                text.append(addr);
            },
        }
        proof {
            assert(Seq::<char>::empty() + "Glimpse("@ =~= "Glimpse("@);
            assert(Seq::<char>::empty() + "Glimpse@"@ =~= "Glimpse@"@);
        }
        text
    }

    /// Wakes nobody itself: takes the waker of every queued node, in the order of the
    /// queue, and leaves the queue empty.
    pub(crate) fn wake_all_(&mut self) -> (r: Vec<W>)
        requires
            old(self)@.queue.no_duplicates(),
            forall|i: int|
                0 <= i < old(self)@.queue.len() ==> {
                    &&& (#[trigger] old(self)@.queue[i]) < old(self)@.nodes.len()
                    &&& old(self)@.nodes[old(self)@.queue[i] as int].wake_ is Some
                },
        ensures
            final(self)@ == old(self)@.woken(),
            r@ == old(self)@.wakers(),
    {
        let ghost before = self@;
        let mut wakers: Vec<W> = Vec::new();
        let mut i: usize = 0;
        while i < self.wake_queue_.len()
            invariant
                i <= self.wake_queue_.len(),
                self.wake_queue_@ == before.queue,
                self.nodes_@.len() == before.nodes.len(),
                self@ == (GlimpseView { nodes: self.nodes_@, ..before }),
                before.queue.no_duplicates(),
                forall|k: int|
                    0 <= k < before.queue.len() ==> {
                        &&& (#[trigger] before.queue[k]) < before.nodes.len()
                        &&& before.nodes[before.queue[k] as int].wake_ is Some
                    },
                wakers@.len() == i,
                forall|k: int|
                    0 <= k < i ==> #[trigger] wakers@[k]
                        == before.nodes[before.queue[k] as int].wake_->0,
                forall|n: int|
                    0 <= n < before.nodes.len() ==> #[trigger] self.nodes_@[n] == (if exists|k: int|
                        0 <= k < i && before.queue[k] == n {
                        SnapshotNode { wake_: None, ..before.nodes[n] }
                    } else {
                        before.nodes[n]
                    }),
            decreases self.wake_queue_.len() - i,
        {
            let at: usize = self.wake_queue_[i];
            let ghost mid = self.nodes_@;
            assert(before.queue[i as int] == at);
            assert(mid[at as int] == before.nodes[at as int]);
            let waker = self.nodes_[at].wake_.take();
            if let Some(waker) = waker {
                wakers.push(waker);
            }
            i = i + 1;
            assert forall|n: int| 0 <= n < before.nodes.len() implies #[trigger] self.nodes_@[n]
                == (if exists|k: int| 0 <= k < i && before.queue[k] == n {
                SnapshotNode { wake_: None, ..before.nodes[n] }
            } else {
                before.nodes[n]
            }) by {
                if n == at {
                    assert(before.queue[i - 1] == n);
                } else {
                    assert(self.nodes_@[n] == mid[n]);
                }
            }
        }
        self.wake_queue_ = Vec::new();
        proof {
            assert(self@.nodes =~= before.woken().nodes);
            assert(self@.queue =~= before.woken().queue);
            assert(wakers@ =~= before.wakers());
        }
        wakers
    }
}

/// The task of looking for the output of a glimpse, round after round.
pub struct GlimpsePeekTask<'a, F: Future, W>(&'a Glimpse<F, W>);

impl<'a, F: Future, W> GlimpsePeekTask<'a, F, W> {
    /// The glimpse that the task looks at.
    pub closed spec fn target(self) -> Glimpse<F, W> {
        *self.0
    }

    pub fn new(glimpse: &'a Glimpse<F, W>) -> (r: Self)
        ensures
            r.target() == *glimpse,
    {
        GlimpsePeekTask(glimpse)
    }

    pub fn glimpse(&self) -> (r: &Glimpse<F, W>)
        ensures
            *r == self.target(),
    {
        self.0
    }

    /// One round: the output if it is there, the end of the task if it is cancelled.
    pub fn may_cancel_with(self, cancelled: bool) -> (r: Spin<Option<&'a F::Output>>)
        requires
            self.target()@.wf(),
        ensures
            r == self.target()@.peek_round(cancelled),
    {
        let v: usize = self.0.stat_.value();
        if StUtils::expect_future_ready(v) {
            match &self.0.fout_ {
                FutOrOut::Out(x) => Spin::Done(Some(x)),
                FutOrOut::Fut(_) => vstd::pervasive::unreached(),
            }
        } else if cancelled {
            Spin::Done(None)
        } else {
            Spin::Again
        }
    }

    /// One round of a task that nobody cancels.
    pub fn wait(self) -> (r: Spin<&'a F::Output>)
        requires
            self.target()@.wf(),
        ensures
            match self.target()@.output() {
                Some(x) => r == Spin::<&'a F::Output>::Done(&x),
                None => r == Spin::<&'a F::Output>::Again,
            },
    {
        match self.may_cancel_with(false) {
            Spin::Done(Some(x)) => Spin::Done(x),
            Spin::Done(None) => vstd::pervasive::unreached(),
            Spin::Again => Spin::Again,
        }
    }
}

} // verus!
