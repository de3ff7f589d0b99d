//! What the other operations leave, and whom they have woken, told by the fields of the
//! glimpse alone.
use crate::error::SnapshotError;
use crate::glimpse::{is_among, is_live, is_locked, FutOrOut, GlimpseView};
use crate::snapshot::{PeekRound, SnapshotNode};
use crate::state::StUtils;
use std::future::Future;
use vstd::prelude::*;

verus! {

proof fn lemma_among(queue: Seq<usize>, at: int)
    ensures
        0 <= at <= usize::MAX ==> is_among(queue, at) == queue.contains(at as usize),
        at < 0 || at > usize::MAX ==> !is_among(queue, at),
{
    if is_among(queue, at) {
        let i = choose|i: int| 0 <= i < queue.len() && queue[i] == at;
        assert(queue[i] == at as usize);
    }
}

impl<F: Future, W> GlimpseView<F, W> {
    /// What the future gave when it was polled is what the glimpse has: its output, with
    /// the ready flag, if it gave that, and else the future as it was, with the pending
    /// flag and the turn to poll again with the one that polled. The future and the node
    /// that polled it are free. With the output everybody's waker is taken out of the
    /// queue, and else nobody's. Nothing else changes.
    pub proof fn law_resume_takes_it_in(self, at: usize, polled: Option<F::Output>)
        requires
            self.wf(),
            at < self.nodes.len(),
            self.nodes[at as int].lock_,
        ensures
            ({
                let next = self.resumed(at as int, polled);
                &&& next.head == self.head && next.fade == self.fade
                &&& next.nodes.len() == self.nodes.len()
                &&& polled matches Some(x) ==> {
                    &&& next.fout == FutOrOut::<F>::Out(x)
                    &&& next.word == (self.word | StUtils::K_READY_FLAG) & !StUtils::K_MUTEX_FLAG
                    &&& next.poller is None
                    &&& next.queue.len() == 0
                }
                &&& polled is None ==> {
                    &&& next.fout == self.fout
                    &&& next.word == (self.word | StUtils::K_PENDING_FLAG) & !StUtils::K_MUTEX_FLAG
                    &&& next.poller == Some(at)
                    &&& next.queue == self.queue
                }
                &&& forall|n: usize|
                    n < self.nodes.len() ==> #[trigger] next.nodes[n as int] == (SnapshotNode {
                        lock_: self.nodes[n as int].lock_ && n != at,
                        wake_: if polled is Some && self.queue.contains(n) {
                            None
                        } else {
                            self.nodes[n as int].wake_
                        },
                        ..self.nodes[n as int]
                    })
            }),
    {
        let next = self.resumed(at as int, polled);
        assert(is_locked(self.nodes, at as int));
        assert forall|n: usize| n < self.nodes.len() implies #[trigger] next.nodes[n as int] == (
        SnapshotNode {
            lock_: self.nodes[n as int].lock_ && n != at,
            wake_: if polled is Some && self.queue.contains(n) {
                None
            } else {
                self.nodes[n as int].wake_
            },
            ..self.nodes[n as int]
        }) by {
            lemma_among(self.queue, n as int);
        }
    }

    /// The wakers that are handed back are those of the queue, each at its place.
    pub proof fn law_wakers_are_the_queues(self)
        requires
            self.wf(),
        ensures
            self.wakers().len() == self.queue.len(),
            forall|i: int|
                0 <= i < self.queue.len() ==> Some(#[trigger] self.wakers()[i]) == self.nodes[
                self.queue[i] as int].wake_,
    {
        assert forall|i: int| 0 <= i < self.queue.len() implies Some(#[trigger] self.wakers()[i])
            == self.nodes[self.queue[i] as int].wake_ by {
            assert(is_live(self.nodes, self.queue[i] as int));
        }
    }

    /// Letting go of the future frees it and the node that polled it, and makes it pending
    /// again if somebody had the turn to poll it. Nothing else changes.
    pub proof fn law_abandon_frees(self, at: usize)
        requires
            self.wf(),
            at < self.nodes.len(),
            self.nodes[at as int].lock_,
        ensures
            ({
                let next = self.abandoned(at as int);
                &&& next.head == self.head && next.fade == self.fade
                &&& next.fout == self.fout && next.poller == self.poller
                &&& next.queue == self.queue
                &&& self.poller is Some ==> next.word == (self.word | StUtils::K_PENDING_FLAG)
                    & !StUtils::K_MUTEX_FLAG
                &&& self.poller is None ==> next.word == self.word & !StUtils::K_MUTEX_FLAG
                &&& next.nodes.len() == self.nodes.len()
                &&& next.nodes[at as int] == (SnapshotNode { lock_: false, ..self.nodes[at as int]
                })
                &&& forall|n: int|
                    0 <= n < self.nodes.len() && n != at ==> #[trigger] next.nodes[n]
                        == self.nodes[n]
            }),
    {
    }

    /// A new node comes after all others, and nothing else changes.
    pub proof fn law_place_adds_one(self, node: SnapshotNode<W>)
        ensures
            ({
                let next = self.placed(node);
                &&& next.word == self.word && next.head == self.head && next.fade == self.fade
                &&& next.fout == self.fout && next.poller == self.poller
                &&& next.queue == self.queue
                &&& next.nodes.len() == self.nodes.len() + 1
                &&& next.nodes[self.nodes.len() as int] == node
                &&& forall|n: int|
                    0 <= n < self.nodes.len() ==> #[trigger] next.nodes[n] == self.nodes[n]
            }),
    {
    }

    /// Closing the glimpse takes it from every node, and nothing else.
    pub proof fn law_close_hides_from_all(self)
        ensures
            ({
                let next = self.closed();
                &&& next.word == self.word && next.head is None && next.fade == self.fade
                &&& next.fout == self.fout && next.poller == self.poller
                &&& next.queue == self.queue
                &&& next.nodes.len() == self.nodes.len()
                &&& forall|n: int|
                    0 <= n < self.nodes.len() ==> #[trigger] next.nodes[n] == (SnapshotNode {
                        glimpse_: false,
                        ..self.nodes[n]
                    })
            }),
    {
    }

    /// The queue without one of its nodes.
    proof fn lemma_dequeued_queue(self, at: usize, k: int)
        requires
            self.wf(),
        ensures
            !self.queue.contains(at) ==> self.dequeued(at as int).queue == self.queue,
            0 <= k < self.queue.len() && self.queue[k] == at ==> self.dequeued(at as int).queue
                == self.queue.remove(k),
    {
        self.queue.index_of_first_ensures(at);
        if 0 <= k < self.queue.len() && self.queue[k] == at {
            assert(self.queue.contains(at));
            let first = self.queue.index_of_first(at)->0;
            assert(first == k);
        }
    }

    /// A snapshot that ends its wait is out of the queue, from its place `k` there. If it
    /// did not have the turn to poll, all others keep their places and wakers, and nobody
    /// is woken. If it had, nobody has it now and the future is not pending; all others are
    /// woken, in their order, and are out of the queue too. It is a viewer still, and
    /// nothing else changes.
    pub proof fn law_leave_ends_one_wait(self, at: usize, k: int)
        requires
            self.wf(),
            at < self.nodes.len(),
            self.nodes[at as int].live_,
            !self.nodes[at as int].lock_,
        ensures
            ({
                let next = self.left(at as int);
                let turn = self.poller == Some(at);
                let woken = self.leave_wakers(at as int);
                &&& next.head == self.head && next.fade == self.fade && next.fout == self.fout
                &&& next.nodes.len() == self.nodes.len()
                &&& next.nodes[at as int] == (SnapshotNode { wake_: None, ..self.nodes[at as int]
                })
                &&& !turn ==> {
                    &&& woken.len() == 0
                    &&& next.word == self.word && next.poller == self.poller
                    &&& !self.queue.contains(at) ==> next.queue == self.queue
                    &&& 0 <= k < self.queue.len() && self.queue[k] == at ==> next.queue
                        == self.queue.remove(k)
                    &&& forall|n: int|
                        0 <= n < self.nodes.len() && n != at ==> #[trigger] next.nodes[n]
                            == self.nodes[n]
                }
                &&& turn ==> {
                    &&& next.word == self.word & !StUtils::K_PENDING_FLAG && next.poller is None
                    &&& next.queue.len() == 0
                    &&& forall|n: usize|
                        n < self.nodes.len() && n != at ==> #[trigger] next.nodes[n as int] == (
                        SnapshotNode {
                            wake_: if self.queue.contains(n) {
                                None
                            } else {
                                self.nodes[n as int].wake_
                            },
                            ..self.nodes[n as int]
                        })
                    &&& 0 <= k < self.queue.len() && self.queue[k] == at ==> {
                        &&& woken.len() == self.queue.len() - 1
                        &&& forall|i: int|
                            0 <= i < woken.len() ==> Some(#[trigger] woken[i]) == self.nodes[
                            self.queue.remove(k)[i] as int].wake_
                    }
                }
            }),
    {
        let next = self.left(at as int);
        let rest = self.dequeued(at as int);
        let woken = self.leave_wakers(at as int);
        self.lemma_dequeued(at as int);
        self.lemma_dequeued_queue(at, k);
        if self.poller == Some(at) {
            assert forall|n: usize| n < self.nodes.len() && n != at implies #[trigger] next.nodes[
            n as int] == (SnapshotNode {
                wake_: if self.queue.contains(n) {
                    None
                } else {
                    self.nodes[n as int].wake_
                },
                ..self.nodes[n as int]
            }) by {
                lemma_among(self.queue, n as int);
                assert(is_among(rest.queue, n as int) == is_among(self.queue, n as int));
            }
            if 0 <= k < self.queue.len() && self.queue[k] == at {
                assert forall|i: int| 0 <= i < woken.len() implies Some(#[trigger] woken[i])
                    == self.nodes[self.queue.remove(k)[i] as int].wake_ by {
                    assert(is_live(rest.nodes, rest.queue[i] as int));
                    assert(is_among(rest.queue, rest.queue[i] as int));
                    assert(rest.queue[i] != at);
                }
            }
        }
    }

    /// Releasing a snapshot ends its wait and makes it no viewer any more. It tells the task
    /// that fades the glimpse, which waits no more then, exactly if the output is there and
    /// no other viewer is: `other` stands for any that may be. Whoever is woken by the end
    /// of the wait is woken too, and nothing else changes.
    pub proof fn law_release_ends_one_viewer(self, at: usize, other: int)
        requires
            self.wf(),
            at < self.nodes.len(),
            self.nodes[at as int].live_,
            !self.nodes[at as int].lock_,
        ensures
            ({
                let left = self.left(at as int);
                let next = self.released(at as int);
                let woken = self.release_wakers(at as int);
                let waits = self.leave_wakers(at as int);
                let last = forall|n: int|
                    0 <= n < self.nodes.len() && n != at ==> !(#[trigger] self.nodes[n]).live_;
                &&& next.word == left.word && next.head == self.head && next.fout == self.fout
                &&& next.poller == left.poller && next.queue == left.queue
                &&& next.nodes.len() == self.nodes.len()
                &&& next.nodes[at as int] == (SnapshotNode {
                    live_: false,
                    wake_: None,
                    ..self.nodes[at as int]
                })
                &&& forall|n: int|
                    0 <= n < self.nodes.len() && n != at ==> #[trigger] next.nodes[n]
                        == left.nodes[n]
                &&& self.fout is Out && last ==> {
                    &&& next.fade is None
                    &&& self.fade matches Some(waker) ==> woken == seq![waker]
                    &&& self.fade is None ==> woken.len() == 0
                }
                &&& self.fout is Fut ==> next.fade == self.fade && woken == waits
                &&& 0 <= other < self.nodes.len() && other != at && self.nodes[other].live_
                    ==> next.fade == self.fade && woken == waits
                &&& self.fade matches Some(waker) ==> next.fade is None ==> woken.contains(waker)
            }),
    {
        let left = self.left(at as int);
        let gone = self.dismissed(at as int);
        let woken = self.release_wakers(at as int);
        self.law_leave_ends_one_wait(at, 0);
        self.law_left_keeps_wf(at as int);
        assert forall|n: int| 0 <= n < self.nodes.len() implies #[trigger] left.nodes[n].live_
            == self.nodes[n].live_ by {}
        assert(gone.nodes[at as int].live_ == false);
        if 0 <= other < self.nodes.len() && other != at && self.nodes[other].live_ {
            assert(is_live(gone.nodes, other));
            assert(woken =~= self.leave_wakers(at as int));
        }
        if self.fout is Fut {
            assert(woken =~= self.leave_wakers(at as int));
        } else {
            assert(self.poller is None);
            if forall|n: int|
                0 <= n < self.nodes.len() && n != at ==> !(#[trigger] self.nodes[n]).live_ {
                assert forall|n: int| !is_live(gone.nodes, n) by {
                    if 0 <= n < self.nodes.len() && n != at {
                        assert(gone.nodes[n] == left.nodes[n]);
                        assert(!self.nodes[n].live_);
                    }
                }
                assert(gone.faded());
            }
        }
        if let Some(waker) = self.fade {
            if self.released(at as int).fade is None {
                assert(woken[0] == waker);
            }
        }
    }

    /// As long as any one snapshot is not released, or the output is not there, fading goes
    /// on, unless it is cancelled, and keeps its waker to be woken.
    pub proof fn law_fading_waits_for_each<'a>(self, at: int, waker: W)
        requires
            self.fout is Fut || (0 <= at < self.nodes.len() && self.nodes[at].live_),
        ensures
            self.fade_round::<'a>(false) is Pending,
            self.fade_round::<'a>(true) == PeekRound::<&'a F::Output>::Ready(
                Err(SnapshotError::Cancelled),
            ),
            self.fade_next(true, waker) == self,
            ({
                let next = self.fade_next(false, waker);
                &&& next.fade == Some(waker)
                &&& next.word == self.word && next.head == self.head && next.fout == self.fout
                &&& next.poller == self.poller && next.queue == self.queue
                &&& next.nodes == self.nodes
            }),
    {
        if 0 <= at < self.nodes.len() && self.nodes[at].live_ {
            assert(is_live(self.nodes, at));
        }
    }

    /// Once the output is there and every snapshot is released, fading ends with the output,
    /// and changes nothing.
    pub proof fn law_fading_ends_with_the_output<'a>(self, cancelled: bool, waker: W)
        requires
            self.fout is Out,
            forall|n: int| 0 <= n < self.nodes.len() ==> !(#[trigger] self.nodes[n]).live_,
        ensures
            self.fout matches FutOrOut::Out(x) && self.fade_round::<'a>(cancelled) == PeekRound::<
                &'a F::Output,
            >::Ready(Ok(&x)),
            self.fade_next(cancelled, waker) == self,
    {
        assert forall|n: int| !is_live(self.nodes, n) by {}
    }
}

} // verus!
