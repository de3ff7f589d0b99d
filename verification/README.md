# snapshot-channel

A channel that wraps a future and shares its output with any number of viewers.

- `src/` is the verified library: the state word and its flags, the glimpse, its
  snapshots, the rounds of peeking, polling and fading, and the laws that hold of them.
- `app/` runs it: handles to a shared glimpse, with guards, wakers and cancellation
  tokens.
- `tests/` runs the library on concrete values.

```rust
use snapshot_channel::{Glimpse, PeekRound};
use std::future::{ready, Ready};

let mut glimpse = Glimpse::<Ready<u8>, u32>::new(ready(7));
let snapshot = glimpse.snapshot();
assert_eq!(snapshot.try_peek(&mut glimpse), Ok(None));

let wait = snapshot.peek_async().may_cancel_with();
assert_eq!(wait.poll(&mut glimpse, false, 1), PeekRound::Again);
assert_eq!(wait.poll(&mut glimpse, false, 1), PeekRound::PollFuture);
// The future is polled here, and gives 7.
assert_eq!(wait.resume(&mut glimpse, Some(7)), vec![1]);
assert_eq!(snapshot.try_peek(&mut glimpse), Ok(Some(&7)));
```

A future that is not ready stays pending. The snapshot that polled it has the turn to
poll it again, when the future wakes it, and passes the turn on when it ends its wait or
is released.
