use kiosk::launcher::{handle_keys, Action, AppKey, AppState, GameSelection, MENU_ITEMS};

#[test]
fn labels_and_binaries() {
    assert_eq!(GameSelection::Charades.label(), "Charades");
    assert_eq!(GameSelection::Pictionary.label(), "Pictionary");
    assert_eq!(GameSelection::Charades.bin_name(), "charades");
    assert_eq!(GameSelection::Pictionary.bin_name(), "pictionary");
    assert_eq!(MENU_ITEMS.len(), 2);
}

#[test]
fn menu_wraps_both_ways() {
    let mut s = AppState::initial();
    s.menu_up();
    assert_eq!(s, AppState::GameSelect { selected: 1 });
    s.menu_down();
    assert_eq!(s, AppState::GameSelect { selected: 0 });
    s.menu_down();
    s.menu_down();
    assert_eq!(s, AppState::GameSelect { selected: 0 });
}

#[test]
fn confirm_launches_selected_game() {
    let mut s = AppState::initial();
    let a = handle_keys(&[AppKey::Down, AppKey::Confirm, AppKey::Up], &mut s);
    assert_eq!(a, Action::Launch);
    assert_eq!(s, AppState::LaunchGame { game: GameSelection::Pictionary, selected: 1 });
    assert_eq!(s.current_selection(), 1);
}

#[test]
fn quit_prompt_back_and_confirm() {
    let mut s = AppState::initial();
    let a = handle_keys(&[AppKey::Down, AppKey::Back], &mut s);
    assert_eq!(a, Action::Nothing);
    assert_eq!(s, AppState::QuitPrompt { selected: 1 });
    let a = handle_keys(&[AppKey::Up, AppKey::Back], &mut s);
    assert_eq!(a, Action::Nothing);
    assert_eq!(s, AppState::GameSelect { selected: 1 });
    let a = handle_keys(&[AppKey::Back, AppKey::Confirm, AppKey::Down], &mut s);
    assert_eq!(a, Action::Quit);
    assert_eq!(s, AppState::QuitPrompt { selected: 1 });
}

#[test]
fn restore_after_game() {
    let mut s = AppState::LaunchGame { game: GameSelection::Charades, selected: 0 };
    assert_eq!(handle_keys(&[AppKey::Confirm, AppKey::Down], &mut s), Action::Nothing);
    s.restore_selection(1);
    assert_eq!(s, AppState::GameSelect { selected: 1 });
    s.open_quit_prompt();
    s.close_quit_prompt();
    assert_eq!(s, AppState::GameSelect { selected: 1 });
}

#[test]
fn menu_moves_outside_the_menu_range() {
    let mut s = AppState::QuitPrompt { selected: 5 };
    s.menu_down();
    assert!(matches!(s, AppState::QuitPrompt { selected: 5 }));
    s.select_game();
    assert!(matches!(s, AppState::QuitPrompt { selected: 5 }));
    let mut s = AppState::GameSelect { selected: 5 };
    s.menu_down();
    assert!(matches!(s, AppState::GameSelect { selected: 0 }));
    s.select_game();
    assert!(matches!(s, AppState::LaunchGame { selected: 0, .. }));
    assert_eq!(s.current_selection(), 0);
    let mut p = kiosk::pictionary::AppState::Menu { selected: 3 };
    p.menu_down();
    assert!(matches!(p, kiosk::pictionary::AppState::Menu { selected: 0 }));
}
