//! The word that a glimpse keeps its state in, and the changes it can undergo.
use atomex::AtomicFlags;
use std::sync::atomic::AtomicUsize;
use vstd::prelude::*;

verus! {

/// What one round of a spinning task came to.
#[derive(Debug, PartialEq, Eq)]
pub enum Spin<T> {
    /// The task is over, with this result.
    Done(T),
    /// Nothing was decided: spin once more.
    Again,
}

/// The flags in the state word, as tests on a word and as changes of it.
pub struct StUtils;

impl StUtils {
    /// Set while somebody holds the lock on the future.
    pub const K_MUTEX_FLAG: usize = 1usize << (usize::BITS - 1);

    /// Set while the future, not ready when it was last polled, waits to be polled again.
    pub const K_PENDING_FLAG: usize = Self::K_MUTEX_FLAG >> 1;

    /// Set once the output has taken the place of the future.
    pub const K_READY_FLAG: usize = Self::K_PENDING_FLAG >> 1;

    pub open spec fn mutex_acquired(v: usize) -> bool {
        v & Self::K_MUTEX_FLAG == Self::K_MUTEX_FLAG
    }

    pub open spec fn future_ready(v: usize) -> bool {
        v & Self::K_READY_FLAG == Self::K_READY_FLAG
    }

    pub open spec fn future_pending(v: usize) -> bool {
        v & Self::K_PENDING_FLAG == Self::K_PENDING_FLAG
    }

    pub fn expect_mutex_acquired(v: usize) -> (r: bool)
        ensures
            r == Self::mutex_acquired(v),
    {
        v & Self::K_MUTEX_FLAG == Self::K_MUTEX_FLAG
    }

    pub fn expect_mutex_released(v: usize) -> (r: bool)
        ensures
            r == !Self::mutex_acquired(v),
    {
        !Self::expect_mutex_acquired(v)
    }

    pub fn desire_mutex_acquired(v: usize) -> (r: usize)
        ensures
            r == v | Self::K_MUTEX_FLAG,
            Self::mutex_acquired(r),
            Self::future_ready(r) == Self::future_ready(v),
            Self::future_pending(r) == Self::future_pending(v),
    {
        proof {
            Self::law_changes_touch_one_flag(v);
        }
        v | Self::K_MUTEX_FLAG
    }

    pub fn desire_mutex_released(v: usize) -> (r: usize)
        ensures
            r == v & !Self::K_MUTEX_FLAG,
            !Self::mutex_acquired(r),
            Self::future_ready(r) == Self::future_ready(v),
            Self::future_pending(r) == Self::future_pending(v),
    {
        proof {
            Self::law_changes_touch_one_flag(v);
        }
        v & (!Self::K_MUTEX_FLAG)
    }

    pub fn expect_future_ready(v: usize) -> (r: bool)
        ensures
            r == Self::future_ready(v),
    {
        v & Self::K_READY_FLAG == Self::K_READY_FLAG
    }

    pub fn expect_future_pending(v: usize) -> (r: bool)
        ensures
            r == Self::future_pending(v),
    {
        v & Self::K_PENDING_FLAG == Self::K_PENDING_FLAG
    }

    /// Sets the ready flag. A pending flag that is set stays set: `&` binds tighter
    /// than `|`, so the mask falls on the ready flag alone.
    pub fn desire_future_ready(v: usize) -> (r: usize)
        ensures
            r == v | Self::K_READY_FLAG,
            Self::future_ready(r),
            Self::mutex_acquired(r) == Self::mutex_acquired(v),
            Self::future_pending(r) == Self::future_pending(v),
    {
        proof {
            Self::law_changes_touch_one_flag(v);
            assert(Self::K_READY_FLAG & (!Self::K_PENDING_FLAG) == Self::K_READY_FLAG)
                by (bit_vector);
        }
        v | Self::K_READY_FLAG & (!Self::K_PENDING_FLAG)
    }

    pub fn desire_future_pending(v: usize) -> (r: usize)
        ensures
            r == v | Self::K_PENDING_FLAG,
            Self::future_pending(r),
            Self::mutex_acquired(r) == Self::mutex_acquired(v),
            Self::future_ready(r) == Self::future_ready(v),
    {
        proof {
            Self::law_changes_touch_one_flag(v);
        }
        v | Self::K_PENDING_FLAG
    }

    pub fn desire_future_not_pending(v: usize) -> (r: usize)
        ensures
            r == v & !Self::K_PENDING_FLAG,
            !Self::future_pending(r),
            Self::mutex_acquired(r) == Self::mutex_acquired(v),
            Self::future_ready(r) == Self::future_ready(v),
    {
        proof {
            Self::law_changes_touch_one_flag(v);
        }
        v & (!Self::K_PENDING_FLAG)
    }

    /// The three flags are the three highest bits of the word, from the top: mutex,
    /// pending, ready.
    pub proof fn law_flags_are_the_top_bits()
        ensures
            Self::K_MUTEX_FLAG == usize::MAX / 2 + 1,
            Self::K_MUTEX_FLAG == 2 * Self::K_PENDING_FLAG,
            Self::K_PENDING_FLAG == 2 * Self::K_READY_FLAG,
            Self::K_READY_FLAG > 0,
            Self::K_MUTEX_FLAG & Self::K_PENDING_FLAG == 0,
            Self::K_MUTEX_FLAG & Self::K_READY_FLAG == 0,
            Self::K_PENDING_FLAG & Self::K_READY_FLAG == 0,
    {
        assert(Self::K_MUTEX_FLAG == (!0usize) / 2 + 1) by (bit_vector);
        let top: usize = usize::MAX;
        assert(top <= !0usize) by (bit_vector);
        assert(Self::K_MUTEX_FLAG == 2 * Self::K_PENDING_FLAG) by (bit_vector);
        assert(Self::K_PENDING_FLAG == 2 * Self::K_READY_FLAG) by (bit_vector);
        assert(Self::K_READY_FLAG > 0) by (bit_vector);
        assert(Self::K_MUTEX_FLAG & Self::K_PENDING_FLAG == 0) by (bit_vector);
        assert(Self::K_MUTEX_FLAG & Self::K_READY_FLAG == 0) by (bit_vector);
        assert(Self::K_PENDING_FLAG & Self::K_READY_FLAG == 0) by (bit_vector);
    }

    /// Each change of a word sets or clears its own flag and leaves the two others
    /// as they were.
    pub proof fn law_changes_touch_one_flag(v: usize)
        ensures
            Self::mutex_acquired(v | Self::K_MUTEX_FLAG),
            Self::future_ready(v | Self::K_MUTEX_FLAG) == Self::future_ready(v),
            Self::future_pending(v | Self::K_MUTEX_FLAG) == Self::future_pending(v),
            !Self::mutex_acquired(v & !Self::K_MUTEX_FLAG),
            Self::future_ready(v & !Self::K_MUTEX_FLAG) == Self::future_ready(v),
            Self::future_pending(v & !Self::K_MUTEX_FLAG) == Self::future_pending(v),
            Self::future_ready(v | Self::K_READY_FLAG),
            Self::mutex_acquired(v | Self::K_READY_FLAG) == Self::mutex_acquired(v),
            Self::future_pending(v | Self::K_READY_FLAG) == Self::future_pending(v),
            Self::future_pending(v | Self::K_PENDING_FLAG),
            Self::mutex_acquired(v | Self::K_PENDING_FLAG) == Self::mutex_acquired(v),
            Self::future_ready(v | Self::K_PENDING_FLAG) == Self::future_ready(v),
            !Self::future_pending(v & !Self::K_PENDING_FLAG),
            Self::mutex_acquired(v & !Self::K_PENDING_FLAG) == Self::mutex_acquired(v),
            Self::future_ready(v & !Self::K_PENDING_FLAG) == Self::future_ready(v),
    {
        assert(Self::mutex_acquired(v | Self::K_MUTEX_FLAG)) by (bit_vector);
        assert(Self::future_ready(v | Self::K_MUTEX_FLAG) == Self::future_ready(v))
            by (bit_vector);
        assert(Self::future_pending(v | Self::K_MUTEX_FLAG) == Self::future_pending(v))
            by (bit_vector);
        assert(!Self::mutex_acquired(v & !Self::K_MUTEX_FLAG)) by (bit_vector);
        assert(Self::future_ready(v & !Self::K_MUTEX_FLAG) == Self::future_ready(v))
            by (bit_vector);
        assert(Self::future_pending(v & !Self::K_MUTEX_FLAG) == Self::future_pending(v))
            by (bit_vector);
        assert(Self::future_ready(v | Self::K_READY_FLAG)) by (bit_vector);
        assert(Self::mutex_acquired(v | Self::K_READY_FLAG) == Self::mutex_acquired(v))
            by (bit_vector);
        assert(Self::future_pending(v | Self::K_READY_FLAG) == Self::future_pending(v))
            by (bit_vector);
        assert(Self::future_pending(v | Self::K_PENDING_FLAG)) by (bit_vector);
        assert(Self::mutex_acquired(v | Self::K_PENDING_FLAG) == Self::mutex_acquired(v))
            by (bit_vector);
        assert(Self::future_ready(v | Self::K_PENDING_FLAG) == Self::future_ready(v))
            by (bit_vector);
        assert(!Self::future_pending(v & !Self::K_PENDING_FLAG)) by (bit_vector);
        assert(Self::mutex_acquired(v & !Self::K_PENDING_FLAG) == Self::mutex_acquired(v))
            by (bit_vector);
        assert(Self::future_ready(v & !Self::K_PENDING_FLAG) == Self::future_ready(v))
            by (bit_vector);
    }

    /// The tests on a word look at one bit each: its value in the word, by division.
    pub proof fn law_flags_are_bits(v: usize)
        ensures
            Self::mutex_acquired(v) <==> v & Self::K_MUTEX_FLAG != 0,
            Self::future_pending(v) <==> v & Self::K_PENDING_FLAG != 0,
            Self::future_ready(v) <==> v & Self::K_READY_FLAG != 0,
            Self::mutex_acquired(v) <==> (v / Self::K_MUTEX_FLAG) % 2 == 1,
            Self::future_pending(v) <==> (v / Self::K_PENDING_FLAG) % 2 == 1,
            Self::future_ready(v) <==> (v / Self::K_READY_FLAG) % 2 == 1,
    {
        assert(Self::mutex_acquired(v) <==> v & Self::K_MUTEX_FLAG != 0) by (bit_vector);
        assert(Self::future_pending(v) <==> v & Self::K_PENDING_FLAG != 0) by (bit_vector);
        assert(Self::future_ready(v) <==> v & Self::K_READY_FLAG != 0) by (bit_vector);
        assert(Self::mutex_acquired(v) <==> (v / Self::K_MUTEX_FLAG) % 2 == 1) by (bit_vector);
        assert(Self::future_pending(v) <==> (v / Self::K_PENDING_FLAG) % 2 == 1) by (bit_vector);
        assert(Self::future_ready(v) <==> (v / Self::K_READY_FLAG) % 2 == 1) by (bit_vector);
    }

    /// No flag is set in a word of zero.
    pub proof fn law_zero_has_no_flag()
        ensures
            !Self::mutex_acquired(0),
            !Self::future_ready(0),
            !Self::future_pending(0),
    {
        assert(!Self::mutex_acquired(0)) by (bit_vector);
        assert(!Self::future_ready(0)) by (bit_vector);
        assert(!Self::future_pending(0)) by (bit_vector);
    }

    /// Releasing the lock undoes acquiring it: a word whose lock was free comes back
    /// unchanged.
    pub proof fn law_release_undoes_acquire(v: usize)
        requires
            !Self::mutex_acquired(v),
        ensures
            (v | Self::K_MUTEX_FLAG) & !Self::K_MUTEX_FLAG == v,
    {
        assert((v | Self::K_MUTEX_FLAG) & !Self::K_MUTEX_FLAG == v) by (bit_vector)
            requires
                !Self::mutex_acquired(v),
        ;
    }
}

/// A change of the state word, made only if the word is as the change expects.
#[derive(Clone, Copy, Debug, PartialEq, Eq, Structural)]
pub enum Change {
    /// Take the lock on the future, which must be free.
    Lock,
    /// Give the lock back, which must be held.
    Unlock,
    /// Take the lock on the future, which must be free, to poll it: while it is polled it
    /// is not pending.
    Begin,
    /// Record that the future was polled and is not ready.
    Pend,
    /// Record that the output is there.
    Finish,
    /// Record that the one whose turn it was to poll the pending future gave it up, so
    /// that anybody may poll it.
    Resign,
}

impl Change {
    /// Whether the change may be made to a word.
    pub open spec fn expects(self, v: usize) -> bool {
        match self {
            Change::Lock => !StUtils::mutex_acquired(v),
            Change::Unlock => StUtils::mutex_acquired(v),
            Change::Begin => !StUtils::mutex_acquired(v),
            Change::Pend => !StUtils::future_pending(v) && !StUtils::future_ready(v),
            Change::Finish => !StUtils::future_pending(v) && !StUtils::future_ready(v),
            Change::Resign => StUtils::future_pending(v),
        }
    }

    /// The word after the change.
    pub open spec fn makes(self, v: usize) -> usize {
        match self {
            Change::Lock => v | StUtils::K_MUTEX_FLAG,
            Change::Unlock => v & !StUtils::K_MUTEX_FLAG,
            Change::Begin => (v | StUtils::K_MUTEX_FLAG) & !StUtils::K_PENDING_FLAG,
            Change::Pend => v | StUtils::K_PENDING_FLAG,
            Change::Finish => v | StUtils::K_READY_FLAG,
            Change::Resign => v & !StUtils::K_PENDING_FLAG,
        }
    }

    /// Each change moves the word by the flags that it sets or clears, and expects those
    /// that it sets to be clear and those that it clears to be set; only the pending flag
    /// may be either way when a poll begins. What is recorded of a poll is recorded once.
    pub proof fn law_changes_move_the_flags(v: usize)
        ensures
            Change::Lock.expects(v) <==> (v / StUtils::K_MUTEX_FLAG) % 2 == 0,
            Change::Begin.expects(v) <==> (v / StUtils::K_MUTEX_FLAG) % 2 == 0,
            Change::Unlock.expects(v) <==> (v / StUtils::K_MUTEX_FLAG) % 2 == 1,
            Change::Resign.expects(v) <==> (v / StUtils::K_PENDING_FLAG) % 2 == 1,
            Change::Pend.expects(v) <==> (v / StUtils::K_PENDING_FLAG) % 2 == 0 && (v
                / StUtils::K_READY_FLAG) % 2 == 0,
            Change::Finish.expects(v) <==> (v / StUtils::K_PENDING_FLAG) % 2 == 0 && (v
                / StUtils::K_READY_FLAG) % 2 == 0,
            Change::Lock.expects(v) ==> Change::Lock.makes(v) == v + StUtils::K_MUTEX_FLAG,
            Change::Unlock.expects(v) ==> Change::Unlock.makes(v) == v - StUtils::K_MUTEX_FLAG,
            Change::Resign.expects(v) ==> Change::Resign.makes(v) == v - StUtils::K_PENDING_FLAG,
            Change::Pend.expects(v) ==> Change::Pend.makes(v) == v + StUtils::K_PENDING_FLAG,
            Change::Finish.expects(v) ==> Change::Finish.makes(v) == v + StUtils::K_READY_FLAG,
            Change::Begin.expects(v) ==> Change::Begin.makes(v) == v + StUtils::K_MUTEX_FLAG - (
            if (v / StUtils::K_PENDING_FLAG) % 2 == 1 {
                StUtils::K_PENDING_FLAG as int
            } else {
                0
            }),
    {
        StUtils::law_flags_are_bits(v);
        assert(!StUtils::mutex_acquired(v) ==> v | StUtils::K_MUTEX_FLAG == v
            + StUtils::K_MUTEX_FLAG) by (bit_vector);
        assert(StUtils::mutex_acquired(v) ==> v & !StUtils::K_MUTEX_FLAG == v
            - StUtils::K_MUTEX_FLAG) by (bit_vector);
        assert(!StUtils::future_pending(v) ==> v | StUtils::K_PENDING_FLAG == v
            + StUtils::K_PENDING_FLAG) by (bit_vector);
        assert(StUtils::future_pending(v) ==> v & !StUtils::K_PENDING_FLAG == v
            - StUtils::K_PENDING_FLAG) by (bit_vector);
        assert(!StUtils::future_ready(v) ==> v | StUtils::K_READY_FLAG == v
            + StUtils::K_READY_FLAG) by (bit_vector);
        assert(!StUtils::mutex_acquired(v) && StUtils::future_pending(v) ==> (v
            | StUtils::K_MUTEX_FLAG) & !StUtils::K_PENDING_FLAG == v + StUtils::K_MUTEX_FLAG
            - StUtils::K_PENDING_FLAG) by (bit_vector);
        assert(!StUtils::mutex_acquired(v) && !StUtils::future_pending(v) ==> (v
            | StUtils::K_MUTEX_FLAG) & !StUtils::K_PENDING_FLAG == v + StUtils::K_MUTEX_FLAG)
            by (bit_vector);
    }

    pub fn expect(self, v: usize) -> (r: bool)
        ensures
            r == self.expects(v),
    {
        match self {
            Change::Lock => StUtils::expect_mutex_released(v),
            Change::Unlock => StUtils::expect_mutex_acquired(v),
            Change::Begin => StUtils::expect_mutex_released(v),
            Change::Pend => !StUtils::expect_future_pending(v) && !StUtils::expect_future_ready(v),
            Change::Finish => !StUtils::expect_future_pending(v) && !StUtils::expect_future_ready(
                v,
            ),
            Change::Resign => StUtils::expect_future_pending(v),
        }
    }

    pub fn desire(self, v: usize) -> (r: usize)
        ensures
            r == self.makes(v),
    {
        match self {
            Change::Lock => StUtils::desire_mutex_acquired(v),
            Change::Unlock => StUtils::desire_mutex_released(v),
            Change::Begin => StUtils::desire_future_not_pending(
                StUtils::desire_mutex_acquired(v),
            ),
            Change::Pend => StUtils::desire_future_pending(v),
            Change::Finish => StUtils::desire_future_ready(v),
            Change::Resign => StUtils::desire_future_not_pending(v),
        }
    }
}

/// The cell that holds the state word: `atomex::AtomicFlags` over a `usize`, with
/// the strictest memory orderings.
///
/// The cell never leaves this module and changes only through an exclusive
/// reference, so nobody else changes it while a reference to it is held.
#[verifier::external_body]
pub struct GlimpseState {
    flags: AtomicFlags<usize>,
}

/// The word in the cell.
pub uninterp spec fn state_word(state: GlimpseState) -> usize;

impl View for GlimpseState {
    type V = usize;

    open spec fn view(&self) -> usize {
        state_word(*self)
    }
}

/// `atomex::AtomicFlags::new`, on a fresh atomic: the cell holds the word it was
/// made with.
#[verifier::external_body]
fn flags_new(word: usize) -> (r: GlimpseState)
    ensures
        state_word(r) == word,
{
    GlimpseState { flags: AtomicFlags::new(AtomicUsize::new(word)) }
}

/// `atomex::AtomicFlags::value`: loads the word in the cell.
#[verifier::external_body]
fn flags_value(state: &GlimpseState) -> (r: usize)
    ensures
        r == state_word(*state),
{
    state.flags.value()
}

/// `atomex::AtomicFlags::try_spin_compare_exchange_weak`: if the word is as the
/// change expects, stores the changed word and gives the old one as a success;
/// if not, stores nothing and gives the word as a failure. A spurious failure of
/// the exchange is tried again within the call.
#[verifier::external_body]
fn flags_exchange(state: &mut GlimpseState, change: Change) -> (r: Result<usize, usize>)
    ensures
        change.expects(state_word(*old(state))) ==> {
            &&& r == Ok::<usize, usize>(state_word(*old(state)))
            &&& state_word(*final(state)) == change.makes(state_word(*old(state)))
        },
        !change.expects(state_word(*old(state))) ==> {
            &&& r == Err::<usize, usize>(state_word(*old(state)))
            &&& state_word(*final(state)) == state_word(*old(state))
        },
{
    state.flags.try_spin_compare_exchange_weak(|v| change.expect(v), |v| change.desire(v)).into()
}

impl GlimpseState {
    /// A state with no flag set.
    pub fn new() -> (r: Self)
        ensures
            r@ == 0,
    {
        flags_new(0)
    }

    /// The word as it stands.
    pub fn value(&self) -> (r: usize)
        ensures
            r == self@,
    {
        flags_value(self)
    }

    /// Makes `change` if the word is as it expects, and says whether it did.
    pub fn try_change(&mut self, change: Change) -> (r: bool)
        ensures
            r == change.expects(old(self)@),
            r ==> final(self)@ == change.makes(old(self)@),
            !r ==> final(self)@ == old(self)@,
    {
        flags_exchange(self, change).is_ok()
    }
}

} // verus!
