use vstd::prelude::*;

verus! {

/// Why a snapshot gave no output.
#[derive(Clone, Copy, Debug, PartialEq, Eq, Structural)]
pub enum SnapshotError {
    /// The caller's cancellation token fired first.
    Cancelled,
    StandingBy,
    GlimpseFaded,
    /// The way from the snapshot to its glimpse is gone.
    GlimpseMissing,
}

} // verus!
