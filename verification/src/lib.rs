//! A channel that consumes one future and shares its output, by reference, with
//! any number of viewers.
//!
//! A [`Glimpse`] holds the future until it is ready and its output from then on.
//! Viewers are [`Snapshot`]s: handles onto nodes that the glimpse keeps for them.
//! A viewer looks without waiting ([`Snapshot::try_peek`]), looks in rounds until
//! there is an answer ([`Snapshot::spin_peek`]) or waits to be woken
//! ([`Snapshot::peek_async`]).
//!
//! Every function here works on plain state behind a reference: what only a
//! runtime can do (running the future, waking a task, asking a cancellation token,
//! waiting for a guard) is handed in as a value or handed back as a step to take.
pub mod answers;
pub mod effects;
pub mod error;
pub mod fade;
pub mod glimpse;
pub mod laws;
pub mod runs;
pub mod snapshot;
pub mod state;
pub mod upkeep;

pub use error::SnapshotError;
pub use fade::{FadeAsync, FadeFuture};
pub use glimpse::{FutOrOut, Glimpse, GlimpsePeekTask, GlimpseView};
pub use runs::Step;
pub use snapshot::{
    PeekAsync, PeekFuture, PeekRound, Snapshot, SnapshotLink, SnapshotNode, SnapshotPeekTask,
};
pub use state::{Change, GlimpseState, Spin, StUtils};
