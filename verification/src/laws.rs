//! What holds across the operations of a glimpse and its snapshots.
use crate::error::SnapshotError;
use crate::glimpse::{is_among, is_live, is_locked, GlimpseView};
use crate::snapshot::{find_head, lemma_find_head_in_range, PeekRound, SnapshotNode};
use crate::state::{Change, Spin, StUtils};
use std::future::Future;
use vstd::prelude::*;

verus! {

impl<F: Future, W> GlimpseView<F, W> {
    /// Any two snapshots whose way to the glimpse is open find the same.
    pub proof fn law_viewers_agree<'a>(self, one: int, other: int, cancelled: bool)
        requires
            self.reaches(one),
            self.reaches(other),
        ensures
            self.snapshot_round::<'a>(one, cancelled) == self.snapshot_round::<'a>(
                other,
                cancelled,
            ),
            self.try_peek_result::<'a>(one) == self.try_peek_result::<'a>(other),
    {
    }

    /// Adding a node changes nothing for the nodes that are there.
    proof fn lemma_placed_find_head(self, node: SnapshotNode<W>, at: int)
        requires
            0 <= at < self.nodes.len(),
        ensures
            find_head(self.placed(node).nodes, self.head, at) == find_head(
                self.nodes,
                self.head,
                at,
            ),
        decreases at,
    {
        assert(self.placed(node).nodes[at] == self.nodes[at]);
        match self.nodes[at].prev() {
            Some(p) if p < at => self.lemma_placed_find_head(node, p as int),
            _ => {},
        }
    }

    /// A lock that bars the way is the lock of a snapshot that polls the future, so there
    /// is no output yet.
    proof fn lemma_barred_has_no_output(self, at: int)
        requires
            self.wf(),
            0 <= at < self.nodes.len(),
            self.barred(at),
        ensures
            self.output() is None,
        decreases at,
    {
        lemma_find_head_in_range(self.nodes, self.head, at);
        match find_head(self.nodes, self.head, at) {
            Some(h) => {
                assert(is_locked(self.nodes, h));
            },
            None => {
                if self.nodes[at].lock_ {
                    assert(is_locked(self.nodes, at));
                } else {
                    self.lemma_barred_has_no_output(self.nodes[at].prev()->0 as int);
                }
            },
        }
    }

    /// Taking a clone changes nothing for the snapshot, and the clone finds what the
    /// snapshot finds. Only where the two go by different ways can they differ: where the
    /// snapshot does not know the way and others lead it there, or knows a way that its
    /// list does not, or holds the lock of its node before a head that does not know.
    pub proof fn law_clone_agrees<'a>(self, at: int)
        requires
            self.wf(),
            self.owns(at),
            !self.nodes[at].glimpse_ ==> !self.reaches(at) && !self.barred(at),
            self.nodes[at].glimpse_ ==> match self.head {
                None => self.reaches(at) || self.barred(at),
                Some(h) => !self.polling(at) || self.nodes[h as int].glimpse_,
            },
        ensures
            ({
                let cloned = self.placed(SnapshotNode::fresh(self.nodes[at].glimpse_));
                let clone = self.nodes.len() as int;
                &&& cloned.try_peek_result::<'a>(clone) == self.try_peek_result::<'a>(at)
                &&& cloned.try_peek_result::<'a>(at) == self.try_peek_result::<'a>(at)
            }),
    {
        let node = SnapshotNode::<W>::fresh(self.nodes[at].glimpse_);
        let cloned = self.placed(node);
        let clone = self.nodes.len() as int;
        self.lemma_placed_find_head(node, at);
        lemma_find_head_in_range(self.nodes, self.head, at);
        assert(cloned.nodes[clone] == node);
        assert(node.prev() is None);
        assert(cloned.nodes[at] == self.nodes[at]);
        if let Some(h) = self.head {
            assert(cloned.nodes[h as int] == self.nodes[h as int]);
        }
        if self.barred(at) {
            self.lemma_barred_has_no_output(at);
        }
    }

    /// A node that remembers the way to the glimpse finds the same head as before.
    proof fn lemma_adopted_find_head(self, at: int)
        requires
            self.wf(),
            0 <= at < self.nodes.len(),
            self.reaches(at),
        ensures
            find_head(self.adopted(at).nodes, self.head, at) == find_head(
                self.nodes,
                self.head,
                at,
            ),
    {
        if self.head is Some {
            self.lemma_head_is_the_glimpses(at);
        }
        let adopted = self.adopted(at);
        assert(adopted.nodes[at].prev() == self.nodes[at].prev());
        if let Some(p) = self.nodes[at].prev() {
            if p < at {
                self.lemma_below_is_unchanged(at, p as int);
            }
        }
    }

    /// The walk from below a node does not come to it.
    proof fn lemma_below_is_unchanged(self, at: int, from: int)
        requires
            0 <= from < at < self.nodes.len(),
        ensures
            find_head(self.adopted(at).nodes, self.head, from) == find_head(
                self.nodes,
                self.head,
                from,
            ),
        decreases from,
    {
        match self.nodes[from].prev() {
            Some(p) if p < from => self.lemma_below_is_unchanged(at, p as int),
            _ => {},
        }
    }

    /// If the glimpse has a head, an open way leads to that head.
    proof fn lemma_head_is_the_glimpses(self, at: int)
        requires
            0 <= at < self.nodes.len(),
            self.reaches(at),
            self.head is Some,
        ensures
            find_head(self.nodes, self.head, at) == Some(self.head->0 as int),
        decreases at,
    {
        match self.nodes[at].prev() {
            Some(p) if p < at => {
                if !self.nodes[at].glimpse_ {
                    self.lemma_head_is_the_glimpses(p as int);
                }
            },
            _ => {},
        }
    }

    /// Peeking any number of times is peeking once: it finds the same again, and after
    /// the first time nothing changes.
    pub proof fn law_peeking_is_idempotent<'a>(self, at: int, cancelled: bool)
        requires
            self.wf(),
            self.owns(at),
        ensures
            self.snapshot_next(at).snapshot_round::<'a>(at, cancelled) == self.snapshot_round::<'a>(
                at,
                cancelled,
            ),
            self.snapshot_next(at).try_peek_result::<'a>(at) == self.try_peek_result::<'a>(at),
            self.snapshot_next(at).snapshot_next(at) == self.snapshot_next(at),
    {
        if self.reaches(at) {
            lemma_find_head_in_range(self.nodes, self.head, at);
            self.lemma_adopted_find_head(at);
            let h = find_head(self.nodes, self.head, at)->0;
            assert(self.adopted(at).nodes[h].lock_ == self.nodes[h].lock_);
            assert(self.adopted(at).reaches(at));
            assert(self.adopted(at).adopted(at).nodes =~= self.adopted(at).nodes);
        }
    }

    /// Before the output is there no viewer gets one, and once it is there every viewer
    /// whose way is open gets it.
    pub proof fn law_peek_finds_the_output<'a>(self, at: int)
        ensures
            self.output() is None ==> !(self.try_peek_result::<'a>(at) matches Ok(Some(_))),
            self.reaches(at) ==> match self.output() {
                Some(x) => self.try_peek_result::<'a>(at) == Ok::<
                    Option<&'a F::Output>,
                    SnapshotError,
                >(Some(&x)),
                None => self.try_peek_result::<'a>(at) == Ok::<
                    Option<&'a F::Output>,
                    SnapshotError,
                >(None),
            },
    {
    }

    /// A viewer that does not wait is never told that it was cancelled, and a task that
    /// nobody cancels never ends by being cancelled.
    pub proof fn law_only_the_cancelled_are_cancelled<'a>(self, at: int)
        ensures
            self.try_peek_result::<'a>(at) != Err::<Option<&'a F::Output>, SnapshotError>(
                SnapshotError::Cancelled,
            ),
            self.peek_round::<'a>(false) != Spin::Done(None::<&'a F::Output>),
            self.snapshot_round::<'a>(at, false) != Spin::Done(
                Err::<&'a F::Output, SnapshotError>(SnapshotError::Cancelled),
            ),
            self.poll_round::<'a>(at, false) != PeekRound::<&'a F::Output>::Ready(
                Err(SnapshotError::Cancelled),
            ),
            self.fade_round::<'a>(false) != PeekRound::<&'a F::Output>::Ready(
                Err(SnapshotError::Cancelled),
            ),
    {
    }

    /// A task that is cancelled does not spin, and the output comes before the
    /// cancellation: what is there is given even so.
    pub proof fn law_cancelled_tasks_end<'a>(self, at: int)
        ensures
            self.peek_round::<'a>(true) is Done,
            self.snapshot_round::<'a>(at, true) is Done,
            !(self.poll_round::<'a>(at, true) is Again),
            !(self.poll_round::<'a>(at, true) is PollFuture),
            self.snapshot_round::<'a>(at, false) is Done ==> self.snapshot_round::<'a>(at, true)
                == self.snapshot_round::<'a>(at, false),
            self.poll_round::<'a>(at, false) is Ready ==> self.poll_round::<'a>(at, true)
                == self.poll_round::<'a>(at, false),
    {
    }

    /// The walk with a lock taken off a node: it goes where it went, or on from there.
    proof fn lemma_unlocked_find_head(self, other: Self, at: int)
        requires
            self.wf(),
            0 <= at < self.nodes.len(),
            other.nodes.len() == self.nodes.len(),
            other.head == self.head,
            forall|i: int|
                0 <= i < self.nodes.len() ==> {
                    &&& (#[trigger] other.nodes[i]).glimpse_ == self.nodes[i].glimpse_
                    &&& other.nodes[i].link_ == self.nodes[i].link_
                    &&& !other.nodes[i].lock_ || self.nodes[i].lock_
                },
        ensures
            find_head(self.nodes, self.head, at) is Some ==> find_head(
                other.nodes,
                other.head,
                at,
            ) == find_head(self.nodes, self.head, at),
        decreases at,
    {
        assert(other.nodes[at].prev() == self.nodes[at].prev());
        match self.nodes[at].prev() {
            Some(p) if p < at => self.lemma_unlocked_find_head(other, p as int),
            _ => {},
        }
    }

    /// What the future gave is what the viewers get: after the output was taken in, it is
    /// there, nobody waits any more, nobody polls the future, and every viewer whose way
    /// is open finds that output, by each of the three ways of peeking. A way that was
    /// open before is still open, and that of a viewer that starts its list and knows the
    /// glimpse is open in any case, the poller's own too.
    pub proof fn law_output_is_delivered<'a>(
        self,
        poller: int,
        x: F::Output,
        viewer: int,
        cancelled: bool,
    )
        requires
            self.wf(),
            self.polling(poller),
            self.owns(viewer),
        ensures
            ({
                let after = self.resumed(poller, Some(x));
                &&& after.output() == Some(x)
                &&& after.ready()
                &&& after.queue.len() == 0
                &&& forall|at: int| !after.polling(at)
                &&& self.reaches(viewer) ==> after.reaches(viewer)
                &&& self.starts_in_sight(viewer) ==> after.reaches(viewer)
                &&& after.reaches(viewer) ==> {
                    &&& after.try_peek_result::<'a>(viewer) == Ok::<
                        Option<&'a F::Output>,
                        SnapshotError,
                    >(Some(&x))
                    &&& after.snapshot_round::<'a>(viewer, cancelled) == Spin::Done(
                        Ok::<&'a F::Output, SnapshotError>(&x),
                    )
                    &&& self.nodes[viewer].glimpse_ ==> after.poll_round::<'a>(viewer, cancelled)
                        == PeekRound::<&'a F::Output>::Ready(Ok(&x))
                }
            }),
    {
        let after = self.resumed(poller, Some(x));
        assert(is_locked(self.nodes, poller));
        StUtils::law_changes_touch_one_flag(self.word);
        StUtils::law_changes_touch_one_flag(Change::Finish.makes(self.word));
        self.law_resumed_keeps_wf(poller, Some(x));
        assert forall|at: int| !after.polling(at) by {
            assert(after.polling(at) == is_locked(after.nodes, at));
            if is_locked(after.nodes, at) {
                assert(after.ready());
                assert(false);
            }
        }
        lemma_find_head_in_range(self.nodes, self.head, viewer);
        self.lemma_unlocked_find_head(after, viewer);
        assert(!after.polling(viewer));
        assert(after.nodes[viewer].link_ == self.nodes[viewer].link_);
        assert(after.nodes[viewer].glimpse_ == self.nodes[viewer].glimpse_);
    }

    /// The snapshot that polled the future is among those to wake, and so is everyone
    /// else who waits, each once and in the order in which they came.
    pub proof fn law_all_waiters_are_woken(self, poller: int, x: F::Output)
        requires
            self.wf(),
            self.polling(poller),
        ensures
            self.wakers().len() == self.queue.len(),
            forall|i: int|
                0 <= i < self.queue.len() ==> self.nodes[#[trigger] self.queue[i] as int].wake_
                    == Some(self.wakers()[i]),
            self.queue.no_duplicates(),
            self.queued(poller),
            forall|at: int| !self.resumed(poller, Some(x)).queued(at),
            forall|at: int|
                self.queued(at) ==> (#[trigger] self.resumed(poller, Some(x)).nodes[at]).wake_
                    is None,
    {
        assert(is_locked(self.nodes, poller));
        assert forall|i: int| 0 <= i < self.queue.len() implies self.nodes[
        #[trigger] self.queue[i] as int].wake_ == Some(self.wakers()[i]) by {}
        assert forall|at: int| self.queued(at) implies (
        #[trigger] self.resumed(poller, Some(x)).nodes[at]).wake_ is None by {
            let i = choose|i: int| 0 <= i < self.queue.len() && self.queue[i] == at;
            assert(is_live(self.nodes, self.queue[i] as int));
        }
    }

    /// A future that is not ready at its poll stays where it is, and so do those who wait.
    /// It is the turn of the snapshot that polled to poll again.
    pub proof fn law_pending_changes_little(self, poller: int)
        requires
            self.wf(),
            self.polling(poller),
        ensures
            ({
                let after = self.resumed(poller, None);
                &&& after.fout == self.fout
                &&& after.queue == self.queue
                &&& after.pending() && !after.ready() && !after.locked()
                &&& after.has_turn(poller)
                &&& after.nodes == self.nodes.update(
                    poller,
                    SnapshotNode { lock_: false, ..self.nodes[poller] },
                )
            }),
    {
        assert(is_locked(self.nodes, poller));
        StUtils::law_changes_touch_one_flag(self.word);
        StUtils::law_changes_touch_one_flag(Change::Pend.makes(self.word));
    }

    /// Letting go of the future undoes having begun to poll it.
    pub proof fn law_abandon_undoes_begin(self, at: int, cancelled: bool)
        requires
            self.wf(),
            self.owns(at),
            self.poll_round(at, cancelled) is PollFuture,
        ensures
            self.begun(at).abandoned(at) == self,
    {
        let v = self.word;
        assert(StUtils::future_pending(v) && !StUtils::mutex_acquired(v) ==> (((v
            | StUtils::K_MUTEX_FLAG) & !StUtils::K_PENDING_FLAG) | StUtils::K_PENDING_FLAG)
            & !StUtils::K_MUTEX_FLAG == v) by (bit_vector);
        assert(!StUtils::future_pending(v) && !StUtils::mutex_acquired(v) ==> ((v
            | StUtils::K_MUTEX_FLAG) & !StUtils::K_PENDING_FLAG) & !StUtils::K_MUTEX_FLAG == v)
            by (bit_vector);
        assert(self.begun(at).abandoned(at).nodes =~= self.nodes);
        assert(self.begun(at).abandoned(at) =~= self);
    }

    /// A poll decides in two rounds at most, unless the lock on the future is held: a
    /// snapshot that has to spin without being barred has joined the queue, and once
    /// queued it spins only for that lock, to poll the future for the first time or in its
    /// turn.
    pub proof fn law_polls_settle_in_two_rounds(self, at: int, cancelled: bool, waker: W)
        requires
            self.wf(),
            self.owns(at),
            at <= usize::MAX,
            !self.polling(at),
            self.poll_round(at, cancelled) is Again,
        ensures
            ({
                let next = self.poll_next(at, cancelled, waker);
                &&& next.queued(at)
                &&& next.output() == self.output()
                &&& next.poll_round(at, cancelled) is Again <==> self.output() is None && (
                self.pending() ==> self.has_turn(at)) && self.locked()
            }),
    {
        if !self.queued(at) {
            let next = self.enqueued(at, waker);
            assert(next.queue.last() == at);
            assert(next.queue[next.queue.len() - 1] == at);
            assert(next.nodes[at].lock_ == self.nodes[at].lock_);
            assert(!self.has_turn(at));
        }
    }

    /// The first snapshot to wait on a future that is not pending polls it: one round to join the queue,
    /// one to be told to poll.
    pub proof fn law_first_waiter_polls(self, at: int, waker: W)
        requires
            self.wf(),
            self.owns(at),
            at <= usize::MAX,
            self.nodes[at].glimpse_,
            !self.queued(at),
            !self.ready(),
            !self.pending(),
            !self.locked(),
        ensures
            self.poll_round(at, false) is Again,
            self.poll_next(at, false, waker).is_next(at),
            self.poll_next(at, false, waker).poll_round(at, false) is PollFuture,
    {
        if self.polling(at) {
            assert(is_locked(self.nodes, at));
        }
        let next = self.enqueued(at, waker);
        assert(next.queue[next.queue.len() - 1] == at);
    }

    /// A poll that gave its result leaves all as it is: polling again gives the same.
    pub proof fn law_polling_is_idempotent(self, at: int, cancelled: bool, waker: W)
        requires
            self.poll_round(at, cancelled) is Ready,
        ensures
            self.poll_next(at, cancelled, waker) == self,
    {
    }

    /// Once a glimpse is out of sight, no snapshot finds it: whoever is not barred is told
    /// that it is missing.
    pub proof fn law_closed_is_missing<'a>(self, at: int, cancelled: bool)
        requires
            self.owns(at),
        ensures
            ({
                let after = self.closed();
                &&& !after.reaches(at)
                &&& !after.barred(at) ==> after.snapshot_round::<'a>(at, cancelled) == Spin::Done(
                    Err::<&'a F::Output, SnapshotError>(SnapshotError::GlimpseMissing),
                )
                &&& !after.barred(at) ==> after.try_peek_result::<'a>(at) == Err::<
                    Option<&'a F::Output>,
                    SnapshotError,
                >(SnapshotError::GlimpseMissing)
                &&& !after.polling(at) ==> after.poll_round::<'a>(at, cancelled) == PeekRound::<
                    &'a F::Output,
                >::Ready(Err(SnapshotError::GlimpseMissing))
            }),
    {
        lemma_find_head_in_range(self.closed().nodes, None, at);
    }

    /// Fading ends with the output, when that is there and the last snapshot is released,
    /// and not before: as long as there is no output or a snapshot is left, it waits.
    pub proof fn law_fading_waits_for_all<'a>(self)
        ensures
            self.fade_round::<'a>(false) is Pending <==> self.output() is None
                || self.has_viewers(),
            !(self.fade_round::<'a>(false) is Pending) ==> self.fade_round::<'a>(false)
                == PeekRound::<&'a F::Output>::Ready(Ok(&self.output()->0)),
    {
    }

    /// The release of the last snapshot ends the fading, if the output is there: whoever
    /// waits for that is woken, and finds the output.
    pub proof fn law_last_release_ends_fading<'a>(self, at: int, cancelled: bool)
        requires
            self.wf(),
            self.output() is Some,
            self.owns(at),
            forall|other: int| self.owns(other) ==> other == at,
        ensures
            self.dismissed(at).faded(),
            self.released(at).fade is None,
            self.released(at).fade_round::<'a>(cancelled) == PeekRound::<&'a F::Output>::Ready(
                Ok(&self.output()->0),
            ),
    {
        let left = self.dismissed(at);
        assert forall|other: int| !is_live(left.nodes, other) by {
            if is_live(left.nodes, other) {
                assert(self.owns(other));
            }
        }
    }

    /// A snapshot that ended its wait or was released waits no more, and the others wait as
    /// they did, unless it had the turn to poll: then they are woken, to join anew.
    pub proof fn law_released_leaves_the_queue(self, at: int, other: int)
        requires
            self.wf(),
            self.owns(at),
            at <= usize::MAX,
            !self.polling(at),
        ensures
            !self.left(at).queued(at),
            !self.released(at).queued(at),
            other != at && !self.has_turn(at) ==> {
                &&& self.left(at).queued(other) == self.queued(other)
                &&& self.released(at).queued(other) == self.queued(other)
            },
            self.has_turn(at) ==> {
                &&& !self.left(at).queued(other)
                &&& !self.released(at).queued(other)
            },
    {
        self.lemma_dequeued(at);
        assert(is_among(self.dequeued(at).queue, other) == (other != at && is_among(
            self.queue,
            other,
        )));
        assert(!is_among(self.dequeued(at).queue, at));
    }
}

} // verus!
