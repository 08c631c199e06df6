use dictator::idle::{idle_unload_action, IdleAction};

#[test]
fn idle_unload_after_the_configured_minutes() {
    // Five minutes, embedded engine loaded.
    assert_eq!(idle_unload_action(5, false, Some(299), true, true, false), (IdleAction::Nothing, false));
    assert_eq!(idle_unload_action(5, false, Some(300), true, true, false), (IdleAction::UnloadEngine, true));
    // Engine already unloaded: only the timer is cleared.
    assert_eq!(idle_unload_action(5, false, Some(900), true, false, false), (IdleAction::Nothing, true));
    // Server backend.
    assert_eq!(idle_unload_action(1, false, Some(60), false, false, true), (IdleAction::StopServer, true));
    assert_eq!(idle_unload_action(1, false, Some(60), false, false, false), (IdleAction::Nothing, true));
}

#[test]
fn idle_never_unloads_when_disabled_recording_or_unused() {
    assert_eq!(idle_unload_action(0, false, Some(1_000_000), true, true, false), (IdleAction::Nothing, false));
    assert_eq!(idle_unload_action(5, true, Some(1_000_000), true, true, false), (IdleAction::Nothing, false));
    assert_eq!(idle_unload_action(5, false, None, true, true, false), (IdleAction::Nothing, false));
}
