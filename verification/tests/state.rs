use snapshot_channel::{Change, GlimpseState, StUtils};

const TOP: usize = usize::MAX / 2 + 1;

#[test]
fn flags_are_the_top_three_bits() {
    assert_eq!(StUtils::K_MUTEX_FLAG, TOP);
    assert_eq!(StUtils::K_PENDING_FLAG, TOP / 2);
    assert_eq!(StUtils::K_READY_FLAG, TOP / 4);
}

#[test]
fn tests_look_at_their_own_flag() {
    let others = !StUtils::K_MUTEX_FLAG;
    assert!(!StUtils::expect_mutex_acquired(others));
    assert!(StUtils::expect_mutex_released(others));
    assert!(StUtils::expect_mutex_acquired(TOP));
    assert!(!StUtils::expect_mutex_released(TOP));
    assert!(StUtils::expect_future_ready(TOP / 4));
    assert!(!StUtils::expect_future_ready(!(TOP / 4)));
    assert!(StUtils::expect_future_pending(TOP / 2));
    assert!(!StUtils::expect_future_pending(!(TOP / 2)));
}

#[test]
fn changes_touch_their_own_flag() {
    assert_eq!(StUtils::desire_mutex_acquired(5), TOP + 5);
    assert_eq!(StUtils::desire_mutex_acquired(TOP + 5), TOP + 5);
    assert_eq!(StUtils::desire_mutex_released(TOP + 5), 5);
    assert_eq!(StUtils::desire_mutex_released(5), 5);
    assert_eq!(StUtils::desire_future_pending(5), TOP / 2 + 5);
    assert_eq!(StUtils::desire_future_ready(5), TOP / 4 + 5);
    assert_eq!(StUtils::desire_future_not_pending(TOP + TOP / 2 + 5), TOP + 5);
    assert_eq!(StUtils::desire_future_not_pending(5), 5);
}

#[test]
fn ready_keeps_a_pending_flag() {
    let both = StUtils::desire_future_ready(StUtils::K_PENDING_FLAG);
    assert_eq!(both, TOP / 2 + TOP / 4);
    assert!(StUtils::expect_future_pending(both));
    assert!(StUtils::expect_future_ready(both));
}

#[test]
fn release_undoes_acquire() {
    let word = TOP / 4 + 9;
    let held = StUtils::desire_mutex_acquired(word);
    assert_eq!(held, TOP + TOP / 4 + 9);
    assert_eq!(StUtils::desire_mutex_released(held), word);
}

#[test]
fn cell_starts_with_no_flag() {
    let state = GlimpseState::new();
    assert_eq!(state.value(), 0);
}

#[test]
fn cell_changes_only_when_expected() {
    let mut state = GlimpseState::new();
    assert!(!state.try_change(Change::Unlock));
    assert_eq!(state.value(), 0);
    assert!(state.try_change(Change::Lock));
    assert_eq!(state.value(), TOP);
    assert!(!state.try_change(Change::Lock));
    assert_eq!(state.value(), TOP);
    assert!(state.try_change(Change::Finish));
    assert_eq!(state.value(), TOP + TOP / 4);
    assert!(!state.try_change(Change::Pend));
    assert!(!state.try_change(Change::Finish));
    assert_eq!(state.value(), TOP + TOP / 4);
    assert!(state.try_change(Change::Unlock));
    assert_eq!(state.value(), TOP / 4);
}

#[test]
fn pending_is_recorded_once() {
    let mut state = GlimpseState::new();
    assert!(state.try_change(Change::Pend));
    assert_eq!(state.value(), TOP / 2);
    assert!(!state.try_change(Change::Pend));
    assert!(!state.try_change(Change::Finish));
    assert_eq!(state.value(), TOP / 2);
}

#[test]
fn beginning_takes_the_pending_flag_off() {
    let mut state = GlimpseState::new();
    assert!(!state.try_change(Change::Resign));
    assert!(state.try_change(Change::Pend));
    assert!(state.try_change(Change::Begin));
    assert_eq!(state.value(), TOP);
    assert!(!state.try_change(Change::Begin));
    assert!(state.try_change(Change::Pend));
    assert!(state.try_change(Change::Unlock));
    assert_eq!(state.value(), TOP / 2);
    assert!(state.try_change(Change::Resign));
    assert_eq!(state.value(), 0);
}

#[test]
fn change_expects_and_desires() {
    assert!(Change::Lock.expect(0));
    assert!(!Change::Lock.expect(TOP));
    assert_eq!(Change::Lock.desire(1), TOP + 1);
    assert!(Change::Pend.expect(TOP));
    assert!(!Change::Pend.expect(TOP / 2));
    assert!(!Change::Finish.expect(TOP / 4));
    assert_eq!(Change::Finish.desire(1), TOP / 4 + 1);
    assert_eq!(Change::Pend.desire(1), TOP / 2 + 1);
    assert_eq!(Change::Unlock.desire(TOP + 1), 1);
    assert!(Change::Begin.expect(TOP / 2));
    assert!(!Change::Begin.expect(TOP));
    assert_eq!(Change::Begin.desire(TOP / 2 + 1), TOP + 1);
    assert!(Change::Resign.expect(TOP / 2));
    assert!(!Change::Resign.expect(TOP));
    assert_eq!(Change::Resign.desire(TOP + TOP / 2 + 1), TOP + 1);
}
