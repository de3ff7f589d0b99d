//! What holds over any run: any sequence of operations, each on the glimpse that the
//! one before it left.
use crate::error::SnapshotError;
use crate::glimpse::{is_among, is_live, is_locked, FutOrOut, GlimpseView};
use crate::snapshot::{PeekRound, SnapshotNode};
use crate::state::{Change, Spin, StUtils};
use std::future::Future;
use vstd::prelude::*;

verus! {

/// One operation on a glimpse, with what it is called with.
pub enum Step<F: Future, W> {
    /// A round of looking from a snapshot.
    Peek { at: usize },
    /// A round of polling from a snapshot.
    Poll { at: usize, cancelled: bool, waker: W },
    /// The future was used in place: polling it may change it.
    Touch { future: F },
    /// What polling the future gave.
    Resume { at: usize, polled: Option<F::Output> },
    /// Polling the future came to no end.
    Abandon { at: usize },
    /// A snapshot's wait ended.
    Leave { at: usize },
    /// A new snapshot.
    Place { node: SnapshotNode<W> },
    /// A snapshot given up.
    Release { at: usize },
    /// Fading starts anew.
    FadeAsync,
    /// A poll of the fading task.
    Fade { cancelled: bool, waker: W },
    /// The glimpse taken out of sight.
    Close,
    /// The lock on the future, taken or found taken.
    Lock,
    /// The lock on the future, given back.
    Unlock,
}

impl<F: Future, W> GlimpseView<F, W> {
    /// Whether the operation may be called.
    pub open spec fn allows(self, step: Step<F, W>) -> bool {
        match step {
            Step::Peek { at } => self.owns(at as int),
            Step::Poll { at, .. } => self.owns(at as int),
            Step::Touch { .. } => self.fout is Fut,
            Step::Resume { at, .. } => self.polling(at as int),
            Step::Abandon { at } => self.polling(at as int),
            Step::Place { node } => {
                &&& node.live_
                &&& !node.lock_
                &&& node.prev() matches Some(p) ==> p < self.nodes.len()
            },
            Step::Leave { at } => self.owns(at as int) && !self.polling(at as int),
            Step::Release { at } => self.owns(at as int) && !self.polling(at as int),
            Step::FadeAsync => true,
            Step::Fade { .. } => true,
            Step::Close => true,
            Step::Lock => true,
            Step::Unlock => self.locked() && forall|at: int| !self.polling(at),
        }
    }

    /// What the operation leaves.
    pub open spec fn after(self, step: Step<F, W>) -> Self {
        match step {
            Step::Peek { at } => self.snapshot_next(at as int),
            Step::Poll { at, cancelled, waker } => self.poll_next(at as int, cancelled, waker),
            Step::Touch { future } => GlimpseView { fout: FutOrOut::Fut(future), ..self },
            Step::Resume { at, polled } => self.resumed(at as int, polled),
            Step::Abandon { at } => self.abandoned(at as int),
            Step::Place { node } => self.placed(node),
            Step::Leave { at } => self.left(at as int),
            Step::Release { at } => self.released(at as int),
            Step::FadeAsync => GlimpseView { fade: None, ..self },
            Step::Fade { cancelled, waker } => self.fade_next(cancelled, waker),
            Step::Close => self.closed(),
            Step::Lock => GlimpseView { word: Change::Lock.makes(self.word), ..self },
            Step::Unlock => GlimpseView { word: Change::Unlock.makes(self.word), ..self },
        }
    }

    /// Whether the operations may be called, one after the other.
    pub open spec fn allows_run(self, steps: Seq<Step<F, W>>) -> bool
        decreases steps.len(),
    {
        steps.len() > 0 ==> self.allows(steps[0]) && self.after(steps[0]).allows_run(
            steps.drop_first(),
        )
    }

    /// What the operations leave.
    pub open spec fn after_run(self, steps: Seq<Step<F, W>>) -> Self
        decreases steps.len(),
    {
        if steps.len() == 0 {
            self
        } else {
            self.after(steps[0]).after_run(steps.drop_first())
        }
    }

    /// Every operation keeps a glimpse well formed.
    pub proof fn law_steps_keep_wf(self, step: Step<F, W>)
        requires
            self.wf(),
            self.allows(step),
        ensures
            self.after(step).wf(),
    {
        match step {
            Step::Peek { at } => self.law_peek_keeps_wf(at as int),
            Step::Poll { at, cancelled, waker } => self.law_poll_keeps_wf(
                at as int,
                cancelled,
                waker,
            ),
            Step::Touch { .. } => {},
            Step::Resume { at, polled } => self.law_resumed_keeps_wf(at as int, polled),
            Step::Abandon { at } => self.law_abandoned_keeps_wf(at as int),
            Step::Place { node } => self.law_placed_keeps_wf(node),
            Step::Leave { at } => self.law_left_keeps_wf(at as int),
            Step::Release { at } => self.law_released_keeps_wf(at as int),
            Step::FadeAsync => {},
            Step::Fade { .. } => {},
            Step::Close => self.law_closed_keeps_wf(),
            Step::Lock => self.law_mutex_keeps_wf(),
            Step::Unlock => self.law_mutex_keeps_wf(),
        }
    }

    /// Whatever is done to a glimpse, and in whatever order, it stays well formed.
    pub proof fn law_runs_keep_wf(self, steps: Seq<Step<F, W>>)
        requires
            self.wf(),
            self.allows_run(steps),
        ensures
            self.after_run(steps).wf(),
        decreases steps.len(),
    {
        if steps.len() > 0 {
            self.law_steps_keep_wf(steps[0]);
            self.after(steps[0]).law_runs_keep_wf(steps.drop_first());
        }
    }

    /// No operation sets a head, so that a snapshot can always be taken from a glimpse that
    /// started without one, as every new glimpse does.
    pub proof fn law_no_head_is_set(self, steps: Seq<Step<F, W>>)
        requires
            self.head is None,
        ensures
            self.after_run(steps).head is None,
        decreases steps.len(),
    {
        if steps.len() > 0 {
            self.after(steps[0]).law_no_head_is_set(steps.drop_first());
        }
    }

    /// Once the output is there, every operation leaves it as it is, and no more is taken
    /// in.
    proof fn lemma_ready_step(self, step: Step<F, W>)
        requires
            self.wf(),
            self.allows(step),
            self.ready(),
        ensures
            !(step is Resume),
            self.after(step).ready(),
            self.after(step).fout == self.fout,
    {
        StUtils::law_changes_touch_one_flag(self.word);
        match step {
            Step::Resume { at, .. } => {
                assert(is_locked(self.nodes, at as int));
            },
            Step::Abandon { at } => {
                assert(is_locked(self.nodes, at as int));
            },
            _ => {},
        }
    }

    /// The output is written once: whatever is done to a glimpse that has one, it keeps
    /// that one.
    pub proof fn law_output_is_final(self, steps: Seq<Step<F, W>>)
        requires
            self.wf(),
            self.allows_run(steps),
            self.output() is Some,
        ensures
            self.after_run(steps).output() == self.output(),
        decreases steps.len(),
    {
        if steps.len() > 0 {
            self.lemma_ready_step(steps[0]);
            self.law_steps_keep_wf(steps[0]);
            self.after(steps[0]).law_output_is_final(steps.drop_first());
        }
    }

    /// No operation but closing the glimpse takes it out of a snapshot's sight.
    proof fn lemma_sight_step(self, step: Step<F, W>, at: int)
        requires
            self.wf(),
            self.allows(step),
            0 <= at < self.nodes.len(),
            self.starts_in_sight(at),
            !(step is Close),
        ensures
            self.after(step).starts_in_sight(at),
            at < self.after(step).nodes.len(),
    {
    }

    /// The glimpse stays in sight: whatever is done to it, short of closing it, a snapshot
    /// that starts its list and knows it is never told that it is missing. In the end it is
    /// told that there is nothing yet if there is no output, and its spin goes on until it
    /// is cancelled; if there is an output it gets that.
    pub proof fn law_glimpse_stays_in_sight<'a>(
        self,
        steps: Seq<Step<F, W>>,
        at: int,
        cancelled: bool,
    )
        requires
            self.wf(),
            self.allows_run(steps),
            0 <= at < self.nodes.len(),
            self.head is None,
            self.nodes[at].link_ is Head,
            self.nodes[at].glimpse_,
            forall|i: int| 0 <= i < steps.len() ==> !(#[trigger] steps[i] is Close),
        ensures
            ({
                let end = self.after_run(steps);
                &&& end.head is None && end.nodes[at].link_ is Head && end.nodes[at].glimpse_
                &&& end.poll_round::<'a>(at, cancelled) != PeekRound::<&'a F::Output>::Ready(
                    Err(SnapshotError::GlimpseMissing),
                )
                &&& end.fout is Fut ==> {
                    &&& end.try_peek_result::<'a>(at) == Ok::<
                        Option<&'a F::Output>,
                        SnapshotError,
                    >(None)
                    &&& end.snapshot_round::<'a>(at, false) is Again
                    &&& end.snapshot_round::<'a>(at, true) == Spin::Done(
                        Err::<&'a F::Output, SnapshotError>(SnapshotError::Cancelled),
                    )
                }
                &&& end.fout matches FutOrOut::Out(x) ==> {
                    &&& end.try_peek_result::<'a>(at) == Ok::<
                        Option<&'a F::Output>,
                        SnapshotError,
                    >(Some(&x))
                    &&& end.snapshot_round::<'a>(at, cancelled) == Spin::Done(
                        Ok::<&'a F::Output, SnapshotError>(&x),
                    )
                    &&& end.poll_round::<'a>(at, cancelled) == PeekRound::<
                        &'a F::Output,
                    >::Ready(Ok(&x))
                }
            }),
        decreases steps.len(),
    {
        if steps.len() > 0 {
            let next = self.after(steps[0]);
            let rest = steps.drop_first();
            self.law_steps_keep_wf(steps[0]);
            self.lemma_sight_step(steps[0], at);
            assert forall|i: int| 0 <= i < rest.len() implies !(#[trigger] rest[i] is Close) by {
                assert(rest[i] == steps[i + 1]);
            }
            next.law_glimpse_stays_in_sight(rest, at, cancelled);
        } else {
            self.law_look_in_sight(at);
            if self.nodes[at].lock_ {
                assert(is_locked(self.nodes, at));
            }
        }
    }

    /// The wakers that an operation hands back, to be woken.
    pub open spec fn wakes(self, step: Step<F, W>) -> Seq<W> {
        match step {
            Step::Resume { polled: Some(_), .. } => self.wakers(),
            Step::Leave { at } => self.leave_wakers(at as int),
            Step::Release { at } => self.release_wakers(at as int),
            _ => Seq::empty(),
        }
    }

    /// The wakers that a run hands back.
    pub open spec fn wakes_in_run(self, steps: Seq<Step<F, W>>) -> Seq<W>
        decreases steps.len(),
    {
        if steps.len() == 0 {
            Seq::empty()
        } else {
            self.wakes(steps[0]) + self.after(steps[0]).wakes_in_run(steps.drop_first())
        }
    }

    /// A snapshot that waits goes on waiting with the same waker, or that waker is handed
    /// back, or it ended the wait itself. So it is for the task that fades the glimpse, until
    /// it is polled again or starts anew.
    pub proof fn law_waker_is_kept_or_woken(self, step: Step<F, W>, at: usize, waker: W)
        requires
            self.wf(),
            self.allows(step),
        ensures
            self.queue.contains(at) && self.nodes[at as int].wake_ == Some(waker) && step
                != (Step::<F, W>::Leave { at }) && step != (Step::<F, W>::Release { at }) ==> {
                ||| self.after(step).queue.contains(at) && self.after(step).nodes[at as int].wake_
                    == Some(waker)
                ||| self.wakes(step).contains(waker)
            },
            self.fade == Some(waker) && !(step is Fade) && !(step is FadeAsync) ==> {
                ||| self.after(step).fade == Some(waker)
                ||| self.wakes(step).contains(waker)
            },
    {
        if self.queue.contains(at) && self.nodes[at as int].wake_ == Some(waker) && step != (
        Step::<F, W>::Leave { at }) && step != (Step::<F, W>::Release { at }) {
            let i = choose|i: int| 0 <= i < self.queue.len() && self.queue[i] == at;
            assert(is_live(self.nodes, self.queue[i] as int));
            match step {
                Step::Poll { at: other, cancelled, waker: fresh } => {
                    self.law_poll_leaves_the_others(other, cancelled, fresh);
                },
                Step::Resume { polled: Some(_), .. } => {
                    assert(self.wakers()[i] == waker);
                },
                Step::Leave { at: other } => {
                    self.lemma_leaver_wakes(other, at, waker);
                },
                Step::Release { at: other } => {
                    self.lemma_leaver_wakes(other, at, waker);
                },
                _ => {},
            }
        }
        if let Step::Release { at: other } = step {
            self.law_release_ends_one_viewer(other, 0);
        }
    }

    /// Who waits when another ends its wait waits on, or is woken.
    proof fn lemma_leaver_wakes(self, leaver: usize, at: usize, waker: W)
        requires
            self.wf(),
            self.owns(leaver as int),
            !self.polling(leaver as int),
            leaver != at,
            self.queue.contains(at),
            self.nodes[at as int].wake_ == Some(waker),
        ensures
            self.has_turn(leaver as int) ==> self.leave_wakers(leaver as int).contains(waker)
                && self.release_wakers(leaver as int).contains(waker),
            !self.has_turn(leaver as int) ==> {
                &&& self.left(leaver as int).queue.contains(at)
                &&& self.left(leaver as int).nodes[at as int].wake_ == Some(waker)
                &&& self.released(leaver as int).queue.contains(at)
                &&& self.released(leaver as int).nodes[at as int].wake_ == Some(waker)
            },
    {
        let rest = self.dequeued(leaver as int);
        self.lemma_dequeued(leaver as int);
        let i = choose|i: int| 0 <= i < self.queue.len() && self.queue[i] == at;
        assert(is_live(self.nodes, self.queue[i] as int));
        assert(is_among(self.queue, at as int));
        assert(is_among(rest.queue, at as int));
        let k = choose|k: int| 0 <= k < rest.queue.len() && rest.queue[k] == at as int;
        assert(rest.queue[k] == at);
        if self.has_turn(leaver as int) {
            assert(self.leave_wakers(leaver as int)[k] == waker);
        }
    }

    /// No wake-up is lost: whatever is done to a glimpse, a snapshot that waits, and does
    /// not end its wait itself, waits on with its waker or has it handed back to be woken.
    pub proof fn law_no_wakeup_is_lost(self, steps: Seq<Step<F, W>>, at: usize, waker: W)
        requires
            self.wf(),
            self.allows_run(steps),
            self.queue.contains(at),
            self.nodes[at as int].wake_ == Some(waker),
            forall|i: int|
                0 <= i < steps.len() ==> #[trigger] steps[i] != (Step::<F, W>::Leave { at })
                    && steps[i] != (Step::<F, W>::Release { at }),
        ensures
            ({
                let end = self.after_run(steps);
                ||| end.queue.contains(at) && end.nodes[at as int].wake_ == Some(waker)
                ||| self.wakes_in_run(steps).contains(waker)
            }),
        decreases steps.len(),
    {
        if steps.len() > 0 {
            let next = self.after(steps[0]);
            let rest = steps.drop_first();
            let now = self.wakes(steps[0]);
            let later = next.wakes_in_run(rest);
            self.law_steps_keep_wf(steps[0]);
            self.law_waker_is_kept_or_woken(steps[0], at, waker);
            assert forall|i: int| 0 <= i < rest.len() implies #[trigger] rest[i] != (Step::<
                F,
                W,
            >::Leave { at }) && rest[i] != (Step::<F, W>::Release { at }) by {
                assert(rest[i] == steps[i + 1]);
            }
            if now.contains(waker) {
                let i = choose|i: int| 0 <= i < now.len() && now[i] == waker;
                assert((now + later)[i] == waker);
            } else {
                next.law_no_wakeup_is_lost(rest, at, waker);
                if later.contains(waker) {
                    let i = choose|i: int| 0 <= i < later.len() && later[i] == waker;
                    assert((now + later)[now.len() + i] == waker);
                }
            }
        }
    }

    /// The output stays in sight: whatever is done to a glimpse that has one, short of
    /// closing it, a snapshot taken from it finds that output in the end, by each of the
    /// three ways of peeking.
    pub proof fn law_output_stays_in_sight<'a>(
        self,
        steps: Seq<Step<F, W>>,
        at: int,
        cancelled: bool,
    )
        requires
            self.wf(),
            self.allows_run(steps),
            self.output() is Some,
            0 <= at < self.nodes.len(),
            self.starts_in_sight(at),
            forall|i: int| 0 <= i < steps.len() ==> !(#[trigger] steps[i] is Close),
        ensures
            ({
                let end = self.after_run(steps);
                let x = self.output()->0;
                &&& end.try_peek_result::<'a>(at) == Ok::<Option<&'a F::Output>, SnapshotError>(
                    Some(&x),
                )
                &&& end.snapshot_round::<'a>(at, cancelled) == Spin::Done(
                    Ok::<&'a F::Output, SnapshotError>(&x),
                )
                &&& end.poll_round::<'a>(at, cancelled) == PeekRound::<&'a F::Output>::Ready(
                    Ok(&x),
                )
            }),
        decreases steps.len(),
    {
        if steps.len() > 0 {
            let next = self.after(steps[0]);
            let rest = steps.drop_first();
            self.lemma_ready_step(steps[0]);
            self.law_steps_keep_wf(steps[0]);
            self.lemma_sight_step(steps[0], at);
            assert forall|i: int| 0 <= i < rest.len() implies !(#[trigger] rest[i] is Close) by {
                assert(rest[i] == steps[i + 1]);
            }
            next.law_output_stays_in_sight(rest, at, cancelled);
        } else if self.nodes[at].lock_ {
            assert(is_locked(self.nodes, at));
        }
    }

    /// After the output, nothing is taken in from the future any more.
    proof fn lemma_no_resume_after_output(self, steps: Seq<Step<F, W>>, i: int)
        requires
            self.wf(),
            self.allows_run(steps),
            self.ready(),
            0 <= i < steps.len(),
        ensures
            !(steps[i] is Resume),
        decreases steps.len(),
    {
        self.lemma_ready_step(steps[0]);
        self.law_steps_keep_wf(steps[0]);
        if i > 0 {
            assert(steps.drop_first()[i - 1] == steps[i]);
            self.after(steps[0]).lemma_no_resume_after_output(steps.drop_first(), i - 1);
        }
    }

    /// The output is the last thing that is taken in from the future: in any run, after a
    /// poll that gave it the future is not polled again.
    pub proof fn law_output_comes_last(self, steps: Seq<Step<F, W>>, i: int, j: int)
        requires
            self.wf(),
            self.allows_run(steps),
            0 <= i < j < steps.len(),
            steps[i] matches Step::Resume { polled, .. } && polled is Some,
        ensures
            !(steps[j] is Resume),
        decreases steps.len(),
    {
        let rest = steps.drop_first();
        let next = self.after(steps[0]);
        self.law_steps_keep_wf(steps[0]);
        assert(rest[j - 1] == steps[j]);
        if i > 0 {
            assert(rest[i - 1] == steps[i]);
            next.law_output_comes_last(rest, i - 1, j - 1);
        } else {
            next.lemma_no_resume_after_output(rest, j - 1);
        }
    }

    /// Whether the snapshot at `at` polls the future in its next round, if nobody cancels
    /// it: it waits, knows the way, the future is free, and it is nobody else's turn.
    pub open spec fn is_next(self, at: int) -> bool {
        &&& self.owns(at)
        &&& self.nodes[at].glimpse_
        &&& self.queued(at)
        &&& !self.ready()
        &&& !self.locked()
        &&& self.pending() ==> self.has_turn(at)
    }

    /// After the snapshot at `at` was polled with `waker` and polled the future, which
    /// became `future` by that and gave `polled`.
    pub open spec fn after_turn(
        self,
        at: int,
        future: F,
        waker: W,
        polled: Option<F::Output>,
    ) -> Self {
        GlimpseView {
            fout: FutOrOut::Fut(future),
            ..self.poll_next(at, false, waker)
        }.resumed(at, polled)
    }

    /// After the snapshot at `at` polled the future again and again, and it was not ready.
    pub open spec fn after_turns(self, at: int, turns: Seq<(F, W)>) -> Self
        decreases turns.len(),
    {
        if turns.len() == 0 {
            self
        } else {
            self.after_turn(at, turns[0].0, turns[0].1, None).after_turns(at, turns.drop_first())
        }
    }

    /// A pending poll is taken up again: the snapshot whose turn it is polls the future in
    /// its next round.
    pub proof fn law_pending_poll_is_taken_up(self, at: int, waker: W)
        requires
            self.wf(),
            self.owns(at),
            self.nodes[at].glimpse_,
            self.pending(),
            self.has_turn(at),
            !self.locked(),
        ensures
            self.poll_round(at, false) is PollFuture,
            self.poll_next(at, false, waker).polling(at),
    {
        self.lemma_next_polls(at, waker);
    }

    proof fn lemma_next_polls(self, at: int, waker: W)
        requires
            self.wf(),
            self.is_next(at),
        ensures
            self.poll_round(at, false) is PollFuture,
            self.poll_next(at, false, waker) == self.begun(at),
            self.begun(at).polling(at),
            self.begun(at).wf(),
    {
        if self.nodes[at].lock_ {
            assert(is_locked(self.nodes, at));
        }
        self.law_begun_keeps_wf(at);
    }

    /// Whoever is next stays next while the future is not ready, however often it is
    /// polled, and nobody loses sight of the glimpse by that.
    proof fn lemma_turns(self, at: int, turns: Seq<(F, W)>, viewer: int)
        requires
            self.wf(),
            self.is_next(at),
            self.owns(viewer),
            self.starts_in_sight(viewer),
        ensures
            self.after_turns(at, turns).wf(),
            self.after_turns(at, turns).is_next(at),
            self.after_turns(at, turns).owns(viewer),
            self.after_turns(at, turns).starts_in_sight(viewer),
        decreases turns.len(),
    {
        if turns.len() > 0 {
            let (future, waker) = turns[0];
            self.lemma_next_polls(at, waker);
            let mid = GlimpseView { fout: FutOrOut::Fut(future), ..self.begun(at) };
            let next = self.after_turn(at, future, waker, None);
            assert(is_locked(self.begun(at).nodes, at));
            mid.law_resumed_keeps_wf(at, None);
            mid.law_pending_changes_little(at);
            assert(next.queue == self.queue);
            next.lemma_turns(at, turns.drop_first(), viewer);
        }
    }

    /// The output of the future is shared, whenever it comes: however often the future is
    /// not ready when it is polled, the snapshot whose turn it is polls it again, and when
    /// it gives its output every snapshot taken from the glimpse finds that, by each of the
    /// three ways of peeking.
    pub proof fn law_output_is_shared<'a>(
        self,
        at: int,
        turns: Seq<(F, W)>,
        future: F,
        waker: W,
        x: F::Output,
        viewer: int,
        cancelled: bool,
    )
        requires
            self.wf(),
            self.is_next(at),
            self.owns(viewer),
            self.starts_in_sight(viewer),
        ensures
            self.after_turns(at, turns).poll_round(at, false) is PollFuture,
            ({
                let after = self.after_turns(at, turns).after_turn(at, future, waker, Some(x));
                &&& after.wf()
                &&& after.output() == Some(x)
                &&& after.try_peek_result::<'a>(viewer) == Ok::<
                    Option<&'a F::Output>,
                    SnapshotError,
                >(Some(&x))
                &&& after.snapshot_round::<'a>(viewer, cancelled) == Spin::Done(
                    Ok::<&'a F::Output, SnapshotError>(&x),
                )
                &&& after.poll_round::<'a>(viewer, cancelled) == PeekRound::<
                    &'a F::Output,
                >::Ready(Ok(&x))
            }),
    {
        let last = self.after_turns(at, turns);
        self.lemma_turns(at, turns, viewer);
        last.lemma_next_polls(at, waker);
        let mid = GlimpseView { fout: FutOrOut::Fut(future), ..last.begun(at) };
        assert(is_locked(last.begun(at).nodes, at));
        assert(mid.polling(at));
        assert(mid.owns(viewer));
        assert(mid.starts_in_sight(viewer));
        mid.law_resumed_keeps_wf(at, Some(x));
        mid.law_output_is_delivered(at, x, viewer, cancelled);
    }

    /// A wait that is left pending is one that another takes care of: the one whose turn it
    /// is to poll, which waits too, with a waker, and polls in its next round if the future
    /// is free.
    pub proof fn law_pending_is_anothers_turn(self, at: int)
        requires
            self.wf(),
            self.owns(at),
            self.poll_round(at, false) is Pending,
        ensures
            ({
                let p = self.poller->0 as int;
                &&& self.poller is Some
                &&& p != at
                &&& self.owns(p)
                &&& self.nodes[p].wake_ is Some
                &&& self.nodes[p].glimpse_ && !self.locked() ==> self.is_next(p)
                    && self.poll_round(p, false) is PollFuture
            }),
    {
        let p = self.poller->0 as int;
        assert(is_among(self.queue, p));
        let i = choose|i: int| 0 <= i < self.queue.len() && self.queue[i] == p;
        assert(is_live(self.nodes, self.queue[i] as int));
        if self.nodes[p].lock_ {
            assert(is_locked(self.nodes, p));
        }
    }

    /// The turn to poll is not lost: when the one that has it ends its wait or is released,
    /// all others that wait are woken, each once and in their order, and whichever of them
    /// is polled first, in a round to join the queue and one to poll, takes the turn.
    pub proof fn law_turn_is_passed_on(self, at: int, other: int, waker: W)
        requires
            self.wf(),
            self.owns(at),
            at <= usize::MAX,
            self.pending(),
            self.has_turn(at),
        ensures
            self.release_wakers(at) == self.leave_wakers(at),
            self.leave_wakers(at).len() == self.queue.len() - 1,
            other != at && self.queued(other) ==> self.nodes[other].wake_ is Some
                && self.leave_wakers(at).contains(self.nodes[other].wake_->0),
            ({
                let left = self.left(at);
                let gone = self.released(at);
                &&& left.poller is None && !left.pending()
                &&& gone.poller is None && !gone.pending()
                &&& other != at && 0 <= other <= usize::MAX && self.owns(other)
                    && self.nodes[other].glimpse_ && !self.locked() ==> {
                    &&& left.poll_round(other, false) is Again
                    &&& left.poll_next(other, false, waker).poll_round(other, false) is PollFuture
                    &&& gone.poll_round(other, false) is Again
                    &&& gone.poll_next(other, false, waker).poll_round(other, false) is PollFuture
                }
            }),
    {
        let left = self.left(at);
        let gone = self.released(at);
        let rest = self.dequeued(at);
        self.lemma_dequeued(at);
        self.law_left_keeps_wf(at);
        self.law_released_keeps_wf(at);
        StUtils::law_changes_touch_one_flag(self.word);
        self.queue.index_of_first_ensures(at as usize);
        assert(is_among(self.queue, at));
        let k = choose|k: int| 0 <= k < self.queue.len() && self.queue[k] == at;
        assert(self.queue.contains(self.queue[k]));
        if other != at && self.queued(other) {
            assert(is_among(rest.queue, other));
            let i = choose|i: int| 0 <= i < rest.queue.len() && rest.queue[i] == other;
            assert(is_live(rest.nodes, rest.queue[i] as int));
            assert(rest.nodes[other] == self.nodes[other]);
            assert(self.leave_wakers(at)[i] == self.nodes[other].wake_->0);
        }
        if other != at && 0 <= other <= usize::MAX && self.owns(other)
            && self.nodes[other].glimpse_ && !self.locked() {
            assert(left.nodes[other].glimpse_);
            assert(gone.nodes[other].glimpse_);
            assert(!left.queued(other));
            assert(!gone.queued(other));
            left.law_first_waiter_polls(other, waker);
            gone.law_first_waiter_polls(other, waker);
        }
    }
}

} // verus!
