//! What peeking and polling answer and leave, told by the fields of the glimpse alone.
use crate::error::SnapshotError;
use crate::glimpse::{is_among, is_live, is_locked, FutOrOut, GlimpseView};
use crate::snapshot::{
    find_head, lemma_find_head_in_range, links_lead_back, nothing_yet, refused, PeekRound,
    SnapshotLink, SnapshotNode,
};
use crate::state::{Spin, StUtils};
use std::future::Future;
use vstd::prelude::*;

verus! {

/// A way back through the nodes: every node on it but the last can be read, does not lead
/// to a head that the glimpse has, and has the next one before it.
pub open spec fn is_way<W>(
    nodes: Seq<SnapshotNode<W>>,
    head: Option<usize>,
    way: Seq<int>,
) -> bool {
    &&& way.len() > 0
    &&& forall|i: int| 0 <= i < way.len() ==> 0 <= #[trigger] way[i] < nodes.len()
    &&& forall|i: int|
        0 <= i < way.len() - 1 ==> {
            &&& !nodes[#[trigger] way[i]].lock_
            &&& !(nodes[way[i]].glimpse_ && head is Some)
            &&& nodes[way[i]].link_ matches SnapshotLink::Node { prev_: Some(p), .. } && p == way[i
                + 1]
        }
}

/// Whether a way cannot go on: its last node is locked, or leads to the head that the
/// glimpse has, or has nothing before it.
pub open spec fn is_whole<W>(
    nodes: Seq<SnapshotNode<W>>,
    head: Option<usize>,
    way: Seq<int>,
) -> bool {
    let last = nodes[way.last()];
    ||| last.lock_
    ||| last.glimpse_ && head is Some
    ||| last.link_ is Head
    ||| last.link_ matches SnapshotLink::Node { prev_: None, .. }
}

/// The head that a whole way leads to, if its last node is not locked.
pub open spec fn goal<W>(
    nodes: Seq<SnapshotNode<W>>,
    head: Option<usize>,
    way: Seq<int>,
) -> int {
    if nodes[way.last()].glimpse_ && head is Some {
        head->0 as int
    } else {
        way.last()
    }
}

/// Whether the nodes are in their order: an inner node comes after the one before it.
pub open spec fn in_order<W>(nodes: Seq<SnapshotNode<W>>) -> bool {
    forall|i: int|
        0 <= i < nodes.len() ==> ((#[trigger] nodes[i]).link_ matches SnapshotLink::Node {
            prev_: Some(p),
            ..
        } ==> p < i)
}

/// The links lead back exactly if the nodes are in their order.
pub proof fn law_links_lead_back_in_order<W>(nodes: Seq<SnapshotNode<W>>)
    ensures
        links_lead_back(nodes) <==> in_order(nodes),
{
    if links_lead_back(nodes) {
        assert forall|i: int| 0 <= i < nodes.len() implies ((
        #[trigger] nodes[i]).link_ matches SnapshotLink::Node { prev_: Some(p), .. } ==> p < i) by {
            assert(nodes[i].prev() matches Some(p) ==> p < i);
        }
    }
    if in_order(nodes) {
        assert forall|i: int| 0 <= i < nodes.len() implies match (#[trigger] nodes[i]).prev() {
            Some(p) => p < i,
            None => true,
        } by {}
    }
}

/// Every node has a way back that is whole.
pub proof fn law_every_node_has_a_way<W>(
    nodes: Seq<SnapshotNode<W>>,
    head: Option<usize>,
    at: int,
) -> (way: Seq<int>)
    requires
        in_order(nodes),
        0 <= at < nodes.len(),
    ensures
        is_way(nodes, head, way),
        is_whole(nodes, head, way),
        way[0] == at,
    decreases at,
{
    let first = seq![at];
    match nodes[at].link_ {
        SnapshotLink::Node { prev_: Some(p), .. } if !is_whole(nodes, head, first) => {
            let rest = law_every_node_has_a_way(nodes, head, p as int);
            let way = first + rest;
            assert(way.last() == rest.last());
            assert forall|i: int| 0 <= i < way.len() implies 0 <= #[trigger] way[i]
                < nodes.len() by {
                if i > 0 {
                    assert(way[i] == rest[i - 1]);
                }
            }
            assert forall|i: int| 0 <= i < way.len() - 1 implies {
                &&& !nodes[#[trigger] way[i]].lock_
                &&& !(nodes[way[i]].glimpse_ && head is Some)
                &&& nodes[way[i]].link_ matches SnapshotLink::Node { prev_: Some(p), .. } && p
                    == way[i + 1]
            } by {
                if i > 0 {
                    assert(way[i] == rest[i - 1]);
                }
                assert(way[i + 1] == rest[i]);
            }
            way
        },
        _ => first,
    }
}

/// The walk from a node goes by its way back: it comes to the head at the end of that, or
/// to the lock that ends it.
pub proof fn law_walk_goes_by_the_way<W>(
    nodes: Seq<SnapshotNode<W>>,
    head: Option<usize>,
    way: Seq<int>,
)
    requires
        in_order(nodes),
        is_way(nodes, head, way),
        is_whole(nodes, head, way),
    ensures
        nodes[way.last()].lock_ ==> find_head(nodes, head, way[0]) is None,
        !nodes[way.last()].lock_ ==> find_head(nodes, head, way[0]) == Some(
            goal(nodes, head, way),
        ),
    decreases way.len(),
{
    if way.len() > 1 {
        let rest = way.drop_first();
        assert forall|i: int| 0 <= i < rest.len() implies 0 <= #[trigger] rest[i] < nodes.len() by {
            assert(rest[i] == way[i + 1]);
        }
        assert forall|i: int| 0 <= i < rest.len() - 1 implies {
            &&& !nodes[#[trigger] rest[i]].lock_
            &&& !(nodes[rest[i]].glimpse_ && head is Some)
            &&& nodes[rest[i]].link_ matches SnapshotLink::Node { prev_: Some(p), .. } && p
                == rest[i + 1]
        } by {
            assert(rest[i] == way[i + 1]);
            assert(rest[i + 1] == way[i + 2]);
        }
        law_walk_goes_by_the_way(nodes, head, rest);
        assert(rest.last() == way.last());
        assert(rest[0] == way[1]);
        assert(!nodes[way[0]].lock_);
        assert(nodes[way[0]].prev() == Some(way[1] as usize));
    }
}

proof fn lemma_waits(queue: Seq<usize>, at: usize)
    ensures
        is_among(queue, at as int) == queue.contains(at),
{
    if is_among(queue, at as int) {
        let i = choose|i: int| 0 <= i < queue.len() && queue[i] == at as int;
        assert(queue[i] == at);
    }
}

/// What a task does that was refused a guard: it ends if it is cancelled, and goes on if
/// not.
pub proof fn law_refused_means_wait_or_cancelled<T>()
    ensures
        refused::<T>(true) == Spin::Done(Err::<T, SnapshotError>(SnapshotError::Cancelled)),
        refused::<T>(false) == Spin::<Result<T, SnapshotError>>::Again,
{
}

/// A viewer that does not wait keeps every answer but that it was cancelled, which only
/// means that there is nothing yet.
pub proof fn law_not_waiting_keeps_the_answer<R>(found: Result<R, SnapshotError>)
    ensures
        found matches Ok(x) ==> nothing_yet(found) == Ok::<Option<R>, SnapshotError>(Some(x)),
        found matches Err(e) ==> e != SnapshotError::Cancelled ==> nothing_yet(found) == Err::<
            Option<R>,
            SnapshotError,
        >(e),
        nothing_yet(Err::<R, SnapshotError>(SnapshotError::Cancelled)) == Ok::<
            Option<R>,
            SnapshotError,
        >(None),
{
}

/// A node that starts a list is live and free, waits for nothing, has nothing before it,
/// and knows of the glimpse what it is told.
pub proof fn law_fresh_nodes_are_free<W>(glimpse: bool)
    ensures
        ({
            let node = SnapshotNode::<W>::fresh(glimpse);
            &&& node.live_
            &&& !node.lock_
            &&& node.glimpse_ == glimpse
            &&& node.wake_ is None
            &&& node.link_ == (SnapshotLink::Head { next_: None, tail_: None })
            &&& node.prev() is None
        }),
{
}

/// Only an inner node has a node before it: the one that it links to.
pub proof fn law_prev_is_the_link<W>(node: SnapshotNode<W>)
    ensures
        node.link_ matches SnapshotLink::Node { prev_, .. } ==> node.prev() == prev_,
        node.link_ is Head ==> node.prev() is None,
{
}

impl<F: Future, W> GlimpseView<F, W> {
    /// What is said of a glimpse is said of its fields: which snapshots it has, which wait,
    /// which poll, whose turn it is, and what the output is.
    pub proof fn law_words_speak_of_the_fields(self, at: usize)
        ensures
            self.owns(at as int) <==> at < self.nodes.len() && self.nodes[at as int].live_,
            self.polling(at as int) <==> at < self.nodes.len() && self.nodes[at as int].lock_,
            self.queued(at as int) <==> self.queue.contains(at),
            self.has_turn(at as int) <==> self.poller == Some(at),
            self.output() is Some <==> self.fout is Out,
            self.fout matches FutOrOut::Out(x) ==> self.output() == Some(x),
            self.locked() <==> self.word & StUtils::K_MUTEX_FLAG != 0,
            self.pending() <==> self.word & StUtils::K_PENDING_FLAG != 0,
            self.ready() <==> self.word & StUtils::K_READY_FLAG != 0,
    {
        lemma_waits(self.queue, at);
        StUtils::law_flags_are_bits(self.word);
    }

    /// What holds of every glimpse, told by its fields.
    pub proof fn law_well_formed(self, at: usize, other: usize)
        requires
            self.wf(),
            at < self.nodes.len(),
            other < self.nodes.len(),
        ensures
            self.fout is Out <==> self.word & StUtils::K_READY_FLAG != 0,
            self.fout is Out ==> self.word & StUtils::K_PENDING_FLAG == 0 && self.poller is None
                && !self.nodes[at as int].lock_,
            self.nodes[at as int].lock_ ==> {
                &&& self.nodes[at as int].live_
                &&& self.queue.contains(at)
                &&& self.word & StUtils::K_MUTEX_FLAG != 0
                &&& self.word & StUtils::K_PENDING_FLAG == 0
                &&& self.nodes[other as int].lock_ ==> at == other
                &&& self.poller is None || self.poller == Some(at)
            },
            self.poller is Some ==> self.queue.contains(self.poller->0)
                && self.poller->0 < self.nodes.len(),
            self.poller is Some && !self.nodes[self.poller->0 as int].lock_
                ==> self.word & StUtils::K_PENDING_FLAG != 0,
            self.word & StUtils::K_PENDING_FLAG != 0 ==> self.poller is Some,
            self.queue.no_duplicates(),
            self.queue.contains(at) ==> self.nodes[at as int].live_ && self.nodes[at as int].wake_
                is Some,
            self.nodes[at as int].link_ matches SnapshotLink::Node { prev_: Some(p), .. } ==> p
                < at,
            self.head matches Some(h) ==> h < self.nodes.len(),
    {
        StUtils::law_flags_are_bits(self.word);
        lemma_waits(self.queue, at);
        assert(self.nodes[at as int].lock_ == is_locked(self.nodes, at as int));
        assert(self.nodes[other as int].lock_ == is_locked(self.nodes, other as int));
        if self.nodes[at as int].lock_ {
            assert(self.busy());
        }
        if self.queue.contains(at) {
            let i = choose|i: int| 0 <= i < self.queue.len() && self.queue[i] == at;
            assert(is_live(self.nodes, self.queue[i] as int));
        }
        if let Some(p) = self.poller {
            lemma_waits(self.queue, p);
            let i = choose|i: int| 0 <= i < self.queue.len() && self.queue[i] == p;
            assert(is_live(self.nodes, self.queue[i] as int));
            if self.busy() {
                let n = choose|n: int| is_locked(self.nodes, n);
                assert(n == p);
            }
        }
        assert(self.nodes[at as int].prev() matches Some(p) ==> p < at);
    }

    /// A look at the glimpse itself gives the output once it is there, and until then ends
    /// only by being cancelled.
    pub proof fn law_look_gives_the_output<'a>(self)
        ensures
            self.fout matches FutOrOut::Out(x) ==> {
                &&& self.peek_round::<'a>(false) == Spin::Done(Some::<&'a F::Output>(&x))
                &&& self.peek_round::<'a>(true) == Spin::Done(Some::<&'a F::Output>(&x))
            },
            self.fout is Fut ==> {
                &&& self.peek_round::<'a>(false) == Spin::<Option<&'a F::Output>>::Again
                &&& self.peek_round::<'a>(true) == Spin::Done(None::<&'a F::Output>)
            },
    {
    }

    /// A look from a snapshot goes by the way back from its node. If a lock is in that way,
    /// it waits for the lock; if the head at its end does not know the glimpse, that is
    /// missing; and if it does, the look gives the output once it is there, and until then
    /// ends only by being cancelled. The node remembers the glimpse that was found, and
    /// nothing else changes.
    pub proof fn law_look_goes_by_the_way<'a>(self, way: Seq<int>)
        requires
            self.wf(),
            is_way(self.nodes, self.head, way),
            is_whole(self.nodes, self.head, way),
        ensures
            ({
                let at = way[0];
                let h = goal(self.nodes, self.head, way);
                let shut = self.nodes[way.last()].lock_ || self.nodes[h].lock_;
                let next = self.snapshot_next(at);
                let missing = Err::<&'a F::Output, SnapshotError>(SnapshotError::GlimpseMissing);
                let cancelled = Err::<&'a F::Output, SnapshotError>(SnapshotError::Cancelled);
                &&& self.barred(at) == shut
                &&& self.reaches(at) == (!shut && self.nodes[h].glimpse_)
                &&& shut ==> {
                    &&& self.snapshot_round::<'a>(at, false) is Again
                    &&& self.snapshot_round::<'a>(at, true) == Spin::Done(cancelled)
                    &&& self.try_peek_result::<'a>(at) == Ok::<
                        Option<&'a F::Output>,
                        SnapshotError,
                    >(None)
                    &&& next == self
                }
                &&& !shut && !self.nodes[h].glimpse_ ==> {
                    &&& self.snapshot_round::<'a>(at, false) == Spin::Done(missing)
                    &&& self.snapshot_round::<'a>(at, true) == Spin::Done(missing)
                    &&& self.try_peek_result::<'a>(at) == Err::<
                        Option<&'a F::Output>,
                        SnapshotError,
                    >(SnapshotError::GlimpseMissing)
                    &&& next == self
                }
                &&& !shut && self.nodes[h].glimpse_ ==> {
                    &&& self.fout matches FutOrOut::Out(x) ==> {
                        &&& self.snapshot_round::<'a>(at, false) == Spin::Done(
                            Ok::<&'a F::Output, SnapshotError>(&x),
                        )
                        &&& self.snapshot_round::<'a>(at, true) == Spin::Done(
                            Ok::<&'a F::Output, SnapshotError>(&x),
                        )
                        &&& self.try_peek_result::<'a>(at) == Ok::<
                            Option<&'a F::Output>,
                            SnapshotError,
                        >(Some(&x))
                    }
                    &&& self.fout is Fut ==> {
                        &&& self.snapshot_round::<'a>(at, false) is Again
                        &&& self.snapshot_round::<'a>(at, true) == Spin::Done(cancelled)
                        &&& self.try_peek_result::<'a>(at) == Ok::<
                            Option<&'a F::Output>,
                            SnapshotError,
                        >(None)
                    }
                    &&& next.word == self.word && next.head == self.head && next.fade == self.fade
                    &&& next.fout == self.fout && next.poller == self.poller
                    &&& next.queue == self.queue
                    &&& next.nodes.len() == self.nodes.len()
                    &&& next.nodes[at] == (SnapshotNode { glimpse_: true, ..self.nodes[at] })
                    &&& forall|n: int|
                        0 <= n < self.nodes.len() && n != at ==> #[trigger] next.nodes[n]
                            == self.nodes[n]
                }
            }),
    {
        law_links_lead_back_in_order(self.nodes);
        law_walk_goes_by_the_way(self.nodes, self.head, way);
        lemma_find_head_in_range(self.nodes, self.head, way[0]);
    }

    /// A snapshot that starts its list and knows the glimpse sees it, whatever becomes of
    /// the others: while there is no output it is told that there is nothing yet, a spin
    /// from it goes on until it is cancelled, and once the output is there it gets that.
    pub proof fn law_look_in_sight<'a>(self, at: int)
        requires
            self.wf(),
            0 <= at < self.nodes.len(),
            self.head is None,
            self.nodes[at].link_ is Head,
            self.nodes[at].glimpse_,
        ensures
            self.starts_in_sight(at),
            self.barred(at) == self.nodes[at].lock_,
            self.reaches(at) == !self.nodes[at].lock_,
            self.fout is Fut ==> {
                &&& self.try_peek_result::<'a>(at) == Ok::<Option<&'a F::Output>, SnapshotError>(
                    None,
                )
                &&& self.snapshot_round::<'a>(at, false) is Again
                &&& self.snapshot_round::<'a>(at, true) == Spin::Done(
                    Err::<&'a F::Output, SnapshotError>(SnapshotError::Cancelled),
                )
            },
            self.fout matches FutOrOut::Out(x) ==> {
                &&& self.try_peek_result::<'a>(at) == Ok::<Option<&'a F::Output>, SnapshotError>(
                    Some(&x),
                )
                &&& self.snapshot_round::<'a>(at, false) == Spin::Done(
                    Ok::<&'a F::Output, SnapshotError>(&x),
                )
                &&& self.snapshot_round::<'a>(at, true) == Spin::Done(
                    Ok::<&'a F::Output, SnapshotError>(&x),
                )
            },
    {
        let way = seq![at];
        assert(is_way(self.nodes, self.head, way));
        self.law_look_goes_by_the_way(way);
        if self.nodes[at].lock_ {
            assert(is_locked(self.nodes, at));
        }
    }

    /// A spin from a snapshot ends only with the output, by its own cancellation, or because
    /// the glimpse is missing: and that it is for a look that does not wait, too.
    pub proof fn law_spin_ends_for_a_reason<'a>(self, at: int, cancelled: bool)
        requires
            self.wf(),
            0 <= at < self.nodes.len(),
        ensures
            self.snapshot_round::<'a>(at, cancelled) matches Spin::Done(Ok(x)) ==> self.fout
                == FutOrOut::<F>::Out(*x),
            self.snapshot_round::<'a>(at, cancelled) matches Spin::Done(Err(e)) ==> {
                ||| cancelled && e == SnapshotError::Cancelled && self.fout is Fut
                ||| e == SnapshotError::GlimpseMissing && self.try_peek_result::<'a>(at) == Err::<
                    Option<&'a F::Output>,
                    SnapshotError,
                >(e)
            },
            self.fout is Fut && (self.barred(at) || self.reaches(at)) ==> {
                &&& self.snapshot_round::<'a>(at, false) is Again
                &&& self.snapshot_round::<'a>(at, true) == Spin::Done(
                    Err::<&'a F::Output, SnapshotError>(SnapshotError::Cancelled),
                )
            },
    {
        law_links_lead_back_in_order(self.nodes);
        let way = law_every_node_has_a_way(self.nodes, self.head, at);
        self.law_look_goes_by_the_way(way);
        let h = goal(self.nodes, self.head, way);
        if self.nodes[way.last()].lock_ {
            assert(is_locked(self.nodes, way.last()));
        } else if self.nodes[h].lock_ {
            assert(is_locked(self.nodes, h));
        }
    }

    /// A round of polling from a snapshot changes nothing for the others: neither their
    /// nodes nor their places in the queue. It touches neither the output nor whose turn it
    /// is, and of its own node only the lock and the waker.
    pub proof fn law_poll_leaves_the_others(self, at: usize, cancelled: bool, waker: W)
        requires
            self.wf(),
            at < self.nodes.len(),
            self.nodes[at as int].live_,
        ensures
            ({
                let next = self.poll_next(at as int, cancelled, waker);
                let own = self.nodes[at as int];
                &&& next.head == self.head && next.fade == self.fade
                &&& next.fout == self.fout && next.poller == self.poller
                &&& next.queue == self.queue || next.queue == self.queue.push(at)
                &&& next.nodes.len() == self.nodes.len()
                &&& forall|n: int|
                    0 <= n < self.nodes.len() && n != at ==> #[trigger] next.nodes[n]
                        == self.nodes[n]
                &&& next.nodes[at as int].live_ && next.nodes[at as int].glimpse_ == own.glimpse_
                &&& next.nodes[at as int].link_ == own.link_
                &&& self.queue.contains(at) ==> next.nodes[at as int].wake_ == own.wake_
                &&& forall|n: usize| #[trigger]
                    self.queue.contains(n) ==> next.queue.contains(n)
                        && next.nodes[n as int].wake_ == self.nodes[n as int].wake_
            }),
    {
        let next = self.poll_next(at as int, cancelled, waker);
        lemma_waits(self.queue, at);
        assert forall|n: usize| #[trigger] self.queue.contains(n) implies next.queue.contains(n)
            && next.nodes[n as int].wake_ == self.nodes[n as int].wake_ by {
            let i = choose|i: int| 0 <= i < self.queue.len() && self.queue[i] == n;
            assert(next.queue[i] == n);
        }
    }

    /// No wake-up is lost: a snapshot whose poll is pending is in the queue after it, with a
    /// waker, and that is the one of this poll if it was not in the queue before. So it is,
    /// too, if it is to poll again at once and no lock is in its way.
    pub proof fn law_pending_waits_in_the_queue(self, at: usize, cancelled: bool, waker: W)
        requires
            self.wf(),
            at < self.nodes.len(),
            self.nodes[at as int].live_,
        ensures
            ({
                let round = self.poll_round(at as int, cancelled);
                let next = self.poll_next(at as int, cancelled, waker);
                round is Pending || round is PollFuture || (round is Again && !self.nodes[
                at as int].lock_) ==> {
                    &&& next.queue.contains(at)
                    &&& next.nodes[at as int].wake_ is Some
                    &&& !self.queue.contains(at) ==> next.nodes[at as int].wake_ == Some(waker)
                }
            }),
    {
        let next = self.poll_next(at as int, cancelled, waker);
        lemma_waits(self.queue, at);
        if self.queue.contains(at) {
            let i = choose|i: int| 0 <= i < self.queue.len() && self.queue[i] == at;
            assert(is_live(self.nodes, self.queue[i] as int));
        } else {
            assert(self.queue.push(at)[self.queue.len() as int] == at);
        }
    }

    /// A poll of a snapshot whose node is locked waits for the lock, unless it is cancelled.
    /// That of one that does not know the glimpse finds it missing. Neither changes
    /// anything.
    pub proof fn law_poll_without_a_way<'a>(self, at: usize, cancelled: bool, waker: W)
        requires
            at < self.nodes.len(),
            self.nodes[at as int].lock_ || !self.nodes[at as int].glimpse_,
        ensures
            ({
                let round = self.poll_round::<'a>(at as int, cancelled);
                let own = self.nodes[at as int];
                &&& own.lock_ && !cancelled ==> round is Again
                &&& own.lock_ && cancelled ==> round == PeekRound::<&'a F::Output>::Ready(
                    Err(SnapshotError::Cancelled),
                )
                &&& !own.lock_ ==> round == PeekRound::<&'a F::Output>::Ready(
                    Err(SnapshotError::GlimpseMissing),
                )
                &&& self.poll_next(at as int, cancelled, waker) == self
            }),
    {
    }

    /// A poll of a snapshot that does not wait yet gives the output if a look finds it. If
    /// not it is cancelled, with nothing changed, or it joins the end of the queue with its
    /// waker, to poll again at once.
    pub proof fn law_poll_of_a_newcomer<'a>(self, at: usize, way: Seq<int>, waker: W)
        requires
            self.wf(),
            at < self.nodes.len(),
            self.nodes[at as int].live_,
            !self.nodes[at as int].lock_,
            self.nodes[at as int].glimpse_,
            !self.queue.contains(at),
            is_way(self.nodes, self.head, way),
            is_whole(self.nodes, self.head, way),
            way[0] == at,
        ensures
            ({
                let found = !self.nodes[way.last()].lock_ && !self.nodes[goal(
                    self.nodes,
                    self.head,
                    way,
                )].lock_ && self.nodes[goal(self.nodes, self.head, way)].glimpse_;
                let polled = self.poll_next(at as int, false, waker);
                &&& self.fout matches FutOrOut::Out(x) ==> found ==> {
                    &&& self.poll_round::<'a>(at as int, false) == PeekRound::<
                        &'a F::Output,
                    >::Ready(Ok(&x))
                    &&& self.poll_round::<'a>(at as int, true) == PeekRound::<
                        &'a F::Output,
                    >::Ready(Ok(&x))
                    &&& polled == self
                    &&& self.poll_next(at as int, true, waker) == self
                }
                &&& self.fout is Fut || !found ==> {
                    &&& self.poll_round::<'a>(at as int, true) == PeekRound::<
                        &'a F::Output,
                    >::Ready(Err(SnapshotError::Cancelled))
                    &&& self.poll_next(at as int, true, waker) == self
                    &&& self.poll_round::<'a>(at as int, false) is Again
                    &&& polled.queue == self.queue.push(at)
                    &&& polled.word == self.word
                    &&& polled.nodes[at as int] == (SnapshotNode {
                        wake_: Some(waker),
                        ..self.nodes[at as int]
                    })
                }
            }),
    {
        self.law_look_goes_by_the_way(way);
        lemma_waits(self.queue, at);
    }

    /// A poll of a snapshot that waits gives the output once it is there. Until then it is
    /// pending if the future is and it is another's turn to poll that; else it is cancelled
    /// if it is to be, goes on if the future is locked, and polls the future if not, for
    /// which it takes both locks. Nothing else changes.
    pub proof fn law_poll_of_a_waiter<'a>(self, at: usize, waker: W)
        requires
            self.wf(),
            at < self.nodes.len(),
            !self.nodes[at as int].lock_,
            self.nodes[at as int].glimpse_,
            self.queue.contains(at),
        ensures
            ({
                let round = self.poll_round::<'a>(at as int, false);
                let next = self.poll_next(at as int, false, waker);
                let others = self.word & StUtils::K_PENDING_FLAG != 0 && self.poller != Some(at);
                let locked = self.word & StUtils::K_MUTEX_FLAG != 0;
                &&& self.poll_next(at as int, true, waker) == self
                &&& self.fout matches FutOrOut::Out(x) ==> {
                    &&& round == PeekRound::<&'a F::Output>::Ready(Ok(&x))
                    &&& self.poll_round::<'a>(at as int, true) == round
                    &&& next == self
                }
                &&& self.fout is Fut && others ==> {
                    &&& round is Pending
                    &&& self.poll_round::<'a>(at as int, true) is Pending
                    &&& next == self
                }
                &&& self.fout is Fut && !others ==> {
                    &&& self.poll_round::<'a>(at as int, true) == PeekRound::<
                        &'a F::Output,
                    >::Ready(Err(SnapshotError::Cancelled))
                    &&& locked ==> round is Again && next == self
                    &&& !locked ==> {
                        &&& round is PollFuture
                        &&& next.word == (self.word | StUtils::K_MUTEX_FLAG)
                            & !StUtils::K_PENDING_FLAG
                        &&& next.queue == self.queue
                        &&& next.nodes[at as int] == (SnapshotNode {
                            lock_: true,
                            ..self.nodes[at as int]
                        })
                    }
                }
            }),
    {
        lemma_waits(self.queue, at);
        StUtils::law_flags_are_bits(self.word);
    }
}

} // verus!
