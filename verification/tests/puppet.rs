use puppetty::puppet::{window_level, OpenAction, PuppetWindows, WindowLevel, WindowSettings};

#[test]
fn window_level_follows_always_on_top() {
    assert_eq!(window_level(true), WindowLevel::AlwaysOnTop);
    assert_eq!(window_level(false), WindowLevel::Normal);
}

#[test]
fn opening_without_image_does_nothing() {
    let state = PuppetWindows::new();
    assert_eq!(state.open_action(false), OpenAction::Ignore);
}

#[test]
fn first_open_spawns_and_second_refreshes() {
    let mut state = PuppetWindows::new();
    assert!(!state.is_open());
    assert_eq!(
        state.open_action(true),
        OpenAction::Spawn(WindowSettings {
            decorations: true,
            hit_test: true,
            level: WindowLevel::Normal,
        })
    );
    state.record_spawned(10, 11, 12);
    assert!(state.is_open());
    assert_eq!(state.window(), Some(10));
    assert_eq!(state.camera(), Some(11));
    assert_eq!(state.sprite(), Some(12));
    assert_eq!(state.open_action(true), OpenAction::RefreshSprite(12));
    assert_eq!(state.open_action(false), OpenAction::Ignore);
}

#[test]
fn locked_window_settings() {
    let mut state = PuppetWindows::new();
    assert!(!state.set_movable(false));
    assert!(state.locked());
    assert!(state.set_always_on_top(true));
    assert!(state.always_on_top());
    assert_eq!(
        state.settings(),
        WindowSettings {
            decorations: false,
            hit_test: false,
            level: WindowLevel::AlwaysOnTop,
        }
    );
    assert_eq!(state.open_action(true), OpenAction::Spawn(state.settings()));
    assert!(state.set_movable(true));
    assert!(!state.locked());
    assert!(!state.set_always_on_top(false));
    assert_eq!(
        state.settings(),
        WindowSettings {
            decorations: true,
            hit_test: true,
            level: WindowLevel::Normal,
        }
    );
}

#[test]
fn closing_config_window_closes_puppet() {
    let mut state = PuppetWindows::new();
    state.record_spawned(1, 2, 3);
    assert_eq!(state.close_requested(false), Vec::<u64>::new());
    assert!(state.is_open());
    assert_eq!(state.close_requested(true), vec![1, 2, 3]);
    assert!(!state.is_open());
    assert_eq!(state.close_requested(true), Vec::<u64>::new());
    assert!(matches!(state.open_action(true), OpenAction::Spawn(_)));
}

#[test]
fn closed_puppet_window_is_cleaned_up() {
    let mut state = PuppetWindows::new();
    state.record_spawned(7, 8, 9);
    assert_eq!(state.window_closed(99), Vec::<u64>::new());
    assert_eq!(state.sprite(), Some(9));
    assert_eq!(state.window_closed(7), vec![8, 9]);
    assert_eq!(state.window(), None);
    assert_eq!(state.camera(), None);
    assert_eq!(state.sprite(), None);
    assert_eq!(state.window_closed(7), Vec::<u64>::new());
}

#[test]
fn flags_survive_closing() {
    let mut state = PuppetWindows::new();
    state.set_movable(false);
    state.record_spawned(4, 5, 6);
    assert_eq!(state.close(), vec![4, 5, 6]);
    assert!(state.locked());
    assert_eq!(state.cleanup(), Vec::<u64>::new());
}
