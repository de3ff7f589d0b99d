//! Every change of a glimpse keeps it well formed.
use crate::glimpse::{
    any_locked, is_among, is_live, is_locked, one_waiter_polls, waiters_have_wakers, GlimpseView,
};
use crate::snapshot::{links_lead_back, SnapshotNode};
use crate::state::{Change, StUtils};
use std::future::Future;
use vstd::prelude::*;

verus! {

/// Nodes that differ in what they know of the glimpse at most, or in the wakers of
/// those that do not wait, are as well formed.
proof fn lemma_nodes_alike<W>(
    queue: Seq<usize>,
    nodes: Seq<SnapshotNode<W>>,
    other: Seq<SnapshotNode<W>>,
)
    requires
        links_lead_back(nodes),
        waiters_have_wakers(queue, nodes),
        one_waiter_polls(queue, nodes),
        other.len() == nodes.len(),
        forall|i: int|
            0 <= i < nodes.len() ==> {
                &&& (#[trigger] other[i]).live_ == nodes[i].live_
                &&& other[i].lock_ == nodes[i].lock_
                &&& other[i].link_ == nodes[i].link_
                &&& is_among(queue, i) ==> other[i].wake_ is Some
            },
    ensures
        links_lead_back(other),
        waiters_have_wakers(queue, other),
        one_waiter_polls(queue, other),
        forall|at: int| is_live(other, at) == is_live(nodes, at),
        forall|at: int| is_locked(other, at) == is_locked(nodes, at),
        any_locked(other) == any_locked(nodes),
{
    assert forall|i: int| 0 <= i < other.len() implies match (#[trigger] other[i]).prev() {
        Some(p) => p < i,
        None => true,
    } by {
        assert(nodes[i].prev() == other[i].prev());
    }
    assert forall|i: int| 0 <= i < queue.len() implies is_live(other, #[trigger] queue[i] as int)
        && other[queue[i] as int].wake_ is Some by {
        assert(is_live(nodes, queue[i] as int));
        assert(is_among(queue, queue[i] as int));
    }
    assert forall|at: int| #[trigger] is_locked(other, at) implies is_live(other, at) && is_among(
        queue,
        at,
    ) by {
        assert(is_locked(nodes, at));
    }
    assert forall|i: int, j: int| is_locked(other, i) && is_locked(other, j) implies i == j by {
        assert(is_locked(nodes, i) && is_locked(nodes, j));
    }
    if any_locked(nodes) {
        let at = choose|at: int| is_locked(nodes, at);
        assert(is_locked(other, at));
    }
    if any_locked(other) {
        let at = choose|at: int| is_locked(other, at);
        assert(is_locked(nodes, at));
    }
}

impl<F: Future, W> GlimpseView<F, W> {
    pub proof fn law_placed_keeps_wf(self, node: SnapshotNode<W>)
        requires
            self.wf(),
            node.live_,
            !node.lock_,
            node.prev() matches Some(p) ==> p < self.nodes.len(),
        ensures
            self.placed(node).wf(),
            self.placed(node).owns(self.nodes.len() as int),
    {
        let after = self.placed(node);
        assert forall|i: int| 0 <= i < after.queue.len() implies is_live(
            after.nodes,
            #[trigger] after.queue[i] as int,
        ) && after.nodes[after.queue[i] as int].wake_ is Some by {
            assert(is_live(self.nodes, self.queue[i] as int));
        }
        assert forall|n: int| #[trigger] is_locked(after.nodes, n) implies is_locked(
            self.nodes,
            n,
        ) && is_live(after.nodes, n) && is_among(after.queue, n) by {
            assert(is_locked(self.nodes, n));
        }
        assert(after.busy() == self.busy()) by {
            if self.busy() {
                let n = choose|n: int| is_locked(self.nodes, n);
                assert(is_locked(after.nodes, n));
            }
        }
    }

    pub proof fn law_closed_keeps_wf(self)
        requires
            self.wf(),
        ensures
            self.closed().wf(),
    {
        lemma_nodes_alike(self.queue, self.nodes, self.closed().nodes);
    }

    pub proof fn law_adopted_keeps_wf(self, at: int)
        requires
            self.wf(),
            0 <= at < self.nodes.len(),
        ensures
            self.adopted(at).wf(),
    {
        lemma_nodes_alike(self.queue, self.nodes, self.adopted(at).nodes);
    }

    pub proof fn law_enqueued_keeps_wf(self, at: int, waker: W)
        requires
            self.wf(),
            self.owns(at),
            at <= usize::MAX,
            !self.queued(at),
        ensures
            self.enqueued(at, waker).wf(),
    {
        let after = self.enqueued(at, waker);
        lemma_nodes_alike(self.queue, self.nodes, after.nodes);
        assert forall|n: int| is_among(self.queue, n) implies #[trigger] is_among(after.queue, n) by {
            let i = choose|i: int| 0 <= i < self.queue.len() && self.queue[i] == n;
            assert(after.queue[i] == n);
        }
    }

    pub proof fn law_begun_keeps_wf(self, at: int)
        requires
            self.wf(),
            self.owns(at),
            self.queued(at),
            !self.locked(),
            !self.ready(),
            self.pending() ==> self.has_turn(at),
        ensures
            self.begun(at).wf(),
            self.begun(at).polling(at),
    {
        let after = self.begun(at);
        StUtils::law_changes_touch_one_flag(self.word);
        StUtils::law_changes_touch_one_flag(self.word | StUtils::K_MUTEX_FLAG);
        assert forall|n: int| #[trigger] is_locked(after.nodes, n) implies n == at by {
            assert(!is_locked(self.nodes, n));
        }
        assert(is_locked(after.nodes, at));
        assert forall|i: int| 0 <= i < after.queue.len() implies is_live(
            after.nodes,
            #[trigger] after.queue[i] as int,
        ) && after.nodes[after.queue[i] as int].wake_ is Some by {
            assert(is_live(self.nodes, self.queue[i] as int));
        }
    }

    pub proof fn law_abandoned_keeps_wf(self, at: int)
        requires
            self.wf(),
            self.polling(at),
        ensures
            self.abandoned(at).wf(),
    {
        assert(is_locked(self.nodes, at));
        StUtils::law_changes_touch_one_flag(self.word);
        StUtils::law_changes_touch_one_flag(Change::Pend.makes(self.word));
        self.lemma_unlocked(self.abandoned(at), at);
    }

    pub proof fn law_resumed_keeps_wf(self, at: int, polled: Option<F::Output>)
        requires
            self.wf(),
            self.polling(at),
        ensures
            self.resumed(at, polled).wf(),
    {
        assert(is_locked(self.nodes, at));
        StUtils::law_changes_touch_one_flag(self.word);
        StUtils::law_changes_touch_one_flag(Change::Pend.makes(self.word));
        StUtils::law_changes_touch_one_flag(Change::Finish.makes(self.word));
        self.lemma_unlocked(self.resumed(at, polled), at);
    }

    /// The one node that was locked is no more, and nobody waits who did not wait.
    proof fn lemma_unlocked(self, after: Self, at: int)
        requires
            self.wf(),
            self.polling(at),
            after.nodes.len() == self.nodes.len(),
            forall|i: int|
                0 <= i < self.nodes.len() ==> {
                    &&& (#[trigger] after.nodes[i]).live_ == self.nodes[i].live_
                    &&& after.nodes[i].lock_ == (self.nodes[i].lock_ && i != at)
                    &&& after.nodes[i].link_ == self.nodes[i].link_
                    &&& after.queued(i) ==> after.nodes[i].wake_ == self.nodes[i].wake_
                },
            after.queue == self.queue || after.queue.len() == 0,
        ensures
            links_lead_back(after.nodes),
            waiters_have_wakers(after.queue, after.nodes),
            one_waiter_polls(after.queue, after.nodes),
            forall|n: int| !is_locked(after.nodes, n),
    {
        assert forall|n: int| !is_locked(after.nodes, n) by {
            if is_locked(after.nodes, n) {
                assert(is_locked(self.nodes, n));
                assert(is_locked(self.nodes, at));
            }
        }
        assert forall|i: int| 0 <= i < after.nodes.len() implies match (
        #[trigger] after.nodes[i]).prev() {
            Some(p) => p < i,
            None => true,
        } by {
            assert(self.nodes[i].prev() == after.nodes[i].prev());
        }
        assert forall|i: int| 0 <= i < after.queue.len() implies is_live(
            after.nodes,
            #[trigger] after.queue[i] as int,
        ) && after.nodes[after.queue[i] as int].wake_ is Some by {
            assert(is_live(self.nodes, self.queue[i] as int));
            assert(is_among(after.queue, after.queue[i] as int));
        }
    }

    /// Who waits after a node was taken out of the queue: all who did but that one.
    pub(crate) proof fn lemma_dequeued(self, at: int)
        requires
            self.wf(),
            0 <= at < self.nodes.len(),
            at <= usize::MAX,
        ensures
            waiters_have_wakers(self.dequeued(at).queue, self.dequeued(at).nodes),
            links_lead_back(self.dequeued(at).nodes),
            forall|n: int| #[trigger]
                is_among(self.dequeued(at).queue, n) == (n != at && is_among(self.queue, n)),
            forall|n: int| #[trigger]
                is_locked(self.dequeued(at).nodes, n) == is_locked(self.nodes, n),
            forall|n: int| #[trigger]
                is_live(self.dequeued(at).nodes, n) == is_live(self.nodes, n),
    {
        let after = self.dequeued(at);
        let gone = at as usize;
        self.queue.index_of_first_ensures(gone);
        assert forall|i: int| 0 <= i < after.nodes.len() implies match (
        #[trigger] after.nodes[i]).prev() {
            Some(p) => p < i,
            None => true,
        } by {
            assert(self.nodes[i].prev() == after.nodes[i].prev());
        }
        let cut = match self.queue.index_of_first(gone) {
            Some(k) => k,
            None => self.queue.len() as int,
        };
        assert forall|i: int| 0 <= i < after.queue.len() implies #[trigger] after.queue[i] == (if i
            < cut {
            self.queue[i]
        } else {
            self.queue[i + 1]
        }) && after.queue[i] != gone by {
            if cut == self.queue.len() {
                assert(self.queue.contains(self.queue[i]));
            }
        }
        assert forall|i: int| 0 <= i < after.queue.len() implies is_live(
            after.nodes,
            #[trigger] after.queue[i] as int,
        ) && after.nodes[after.queue[i] as int].wake_ is Some by {
            let k = if i < cut {
                i
            } else {
                i + 1
            };
            assert(self.queue[k] == after.queue[i]);
            assert(is_live(self.nodes, self.queue[k] as int));
        }
        assert forall|n: int| #[trigger]
            is_among(after.queue, n) == (n != at && is_among(self.queue, n)) by {
            if is_among(after.queue, n) {
                let i = choose|i: int| 0 <= i < after.queue.len() && after.queue[i] == n;
                let k = if i < cut {
                    i
                } else {
                    i + 1
                };
                assert(self.queue[k] == n);
            }
            if n != at && is_among(self.queue, n) {
                let k = choose|k: int| 0 <= k < self.queue.len() && self.queue[k] == n;
                let i = if k < cut {
                    k
                } else {
                    k - 1
                };
                assert(after.queue[i] == n);
            }
        }
    }

    pub proof fn law_left_keeps_wf(self, at: int)
        requires
            self.wf(),
            self.owns(at),
            at <= usize::MAX,
            !self.polling(at),
        ensures
            self.left(at).wf(),
            self.left(at).owns(at),
            !self.left(at).queued(at),
            !self.left(at).polling(at),
    {
        let after = self.left(at);
        self.lemma_dequeued(at);
        StUtils::law_changes_touch_one_flag(self.word);
        assert(!is_locked(self.nodes, at));
        assert(is_live(self.nodes, at));
        if self.has_turn(at) {
            assert forall|n: int| !is_locked(self.nodes, n) by {}
            assert forall|n: int| !is_locked(after.nodes, n) by {
                assert(!is_locked(self.nodes, n));
            }
            assert forall|i: int| 0 <= i < after.nodes.len() implies match (
            #[trigger] after.nodes[i]).prev() {
                Some(p) => p < i,
                None => true,
            } by {
                assert(self.nodes[i].prev() == after.nodes[i].prev());
            }
        } else {
            assert(after.busy() == self.busy()) by {
                if self.busy() {
                    let n = choose|n: int| is_locked(self.nodes, n);
                    assert(is_locked(after.nodes, n));
                }
                if after.busy() {
                    let n = choose|n: int| is_locked(after.nodes, n);
                    assert(is_locked(self.nodes, n));
                }
            }
        }
    }

    pub proof fn law_released_keeps_wf(self, at: int)
        requires
            self.wf(),
            self.owns(at),
            at <= usize::MAX,
            !self.polling(at),
        ensures
            self.dismissed(at).wf(),
            self.released(at).wf(),
    {
        let rest = self.left(at);
        let after = self.dismissed(at);
        self.law_left_keeps_wf(at);
        assert(!is_among(rest.queue, at));
        assert(!is_locked(rest.nodes, at));
        assert forall|i: int| 0 <= i < after.nodes.len() implies match (
        #[trigger] after.nodes[i]).prev() {
            Some(p) => p < i,
            None => true,
        } by {
            assert(rest.nodes[i].prev() == after.nodes[i].prev());
        }
        assert forall|n: int| #[trigger]
            is_locked(after.nodes, n) == is_locked(rest.nodes, n) by {}
        assert(after.busy() == rest.busy()) by {
            if rest.busy() {
                let n = choose|n: int| is_locked(rest.nodes, n);
                assert(is_locked(after.nodes, n));
            }
            if after.busy() {
                let n = choose|n: int| is_locked(after.nodes, n);
                assert(is_locked(rest.nodes, n));
            }
        }
        assert forall|i: int| 0 <= i < after.queue.len() implies is_live(
            after.nodes,
            #[trigger] after.queue[i] as int,
        ) && after.nodes[after.queue[i] as int].wake_ is Some by {
            assert(is_live(rest.nodes, rest.queue[i] as int));
            assert(is_among(rest.queue, rest.queue[i] as int));
        }
        assert forall|n: int| #[trigger] is_locked(after.nodes, n) implies is_live(after.nodes, n)
            && is_among(after.queue, n) by {
            assert(is_locked(rest.nodes, n));
        }
        assert forall|i: int, j: int|
            is_locked(after.nodes, i) && is_locked(after.nodes, j) implies i == j by {
            assert(is_locked(rest.nodes, i) && is_locked(rest.nodes, j));
        }
    }

    /// The lock on the future, taken or given back by nobody's poll.
    pub proof fn law_mutex_keeps_wf(self)
        requires
            self.wf(),
        ensures
            (GlimpseView { word: Change::Lock.makes(self.word), ..self }).wf(),
            (forall|at: int| !self.polling(at)) ==> (GlimpseView {
                word: Change::Unlock.makes(self.word),
                ..self
            }).wf(),
    {
        StUtils::law_changes_touch_one_flag(self.word);
        if forall|at: int| !self.polling(at) {
            assert forall|at: int| !is_locked(self.nodes, at) by {
                assert(!self.polling(at));
            }
        }
    }

    pub proof fn law_fade_keeps_wf(self, cancelled: bool, waker: W)
        requires
            self.wf(),
        ensures
            self.fade_next(cancelled, waker).wf(),
    {
    }

    pub proof fn law_peek_keeps_wf(self, at: int)
        requires
            self.wf(),
            self.owns(at),
        ensures
            self.snapshot_next(at).wf(),
    {
        self.law_adopted_keeps_wf(at);
    }

    pub proof fn law_poll_keeps_wf(self, at: int, cancelled: bool, waker: W)
        requires
            self.wf(),
            self.owns(at),
            at <= usize::MAX,
        ensures
            self.poll_next(at, cancelled, waker).wf(),
    {
        if !self.queued(at) {
            self.law_enqueued_keeps_wf(at, waker);
        } else if self.poll_round(at, cancelled) is PollFuture {
            self.law_begun_keeps_wf(at);
        }
    }
}

} // verus!
