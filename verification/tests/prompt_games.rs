use kiosk::charades;
use kiosk::charades::{Difficulty, WordQueue};
use kiosk::launcher::AppKey;
use kiosk::pictionary;

fn queue() -> WordQueue {
    WordQueue::new(vec!["cat".to_string(), "dog".to_string()])
}

#[test]
fn charades_labels_and_menu() {
    assert_eq!(Difficulty::Easy.label(), "Easy");
    assert_eq!(Difficulty::Medium.label(), "Medium");
    assert_eq!(Difficulty::Hard.label(), "Hard");
    assert_eq!(charades::MENU_ITEMS.len(), charades::MENU_LEN);
    let mut s = charades::AppState::initial();
    assert_eq!(s.selected_difficulty(), Some(Difficulty::Easy));
    s.menu_up();
    assert_eq!(s.selected_difficulty(), Some(Difficulty::Hard));
    s.menu_down();
    s.menu_down();
    assert_eq!(s.selected_difficulty(), Some(Difficulty::Medium));
}

#[test]
fn charades_keys_on_menu() {
    let mut s = charades::AppState::initial();
    let keys = [AppKey::Down, AppKey::Down, AppKey::Confirm, AppKey::Up];
    let (a, n) = charades::handle_keys(&keys, &mut s);
    assert_eq!(a, charades::PromptAction::Start(Difficulty::Hard));
    assert_eq!(n, 3);
    let (a, n) = charades::handle_keys(&[AppKey::Up], &mut s);
    assert_eq!(a, charades::PromptAction::Nothing);
    assert_eq!(n, 1);
    assert_eq!(s.selected_difficulty(), Some(Difficulty::Medium));
    let (a, n) = charades::handle_keys(&[AppKey::Back, AppKey::Confirm], &mut s);
    assert_eq!(a, charades::PromptAction::Quit);
    assert_eq!(n, 1);
    let (a, n) = charades::handle_keys(&[], &mut s);
    assert_eq!(a, charades::PromptAction::Nothing);
    assert_eq!(n, 0);
}

#[test]
fn charades_keys_while_playing() {
    let mut s = charades::AppState::initial();
    s.menu_down();
    s.start_game(queue());
    match &s {
        charades::AppState::Playing { difficulty, current_prompt, .. } => {
            assert_eq!(*difficulty, Difficulty::Medium);
            assert!(current_prompt == "cat" || current_prompt == "dog");
        }
        _ => panic!("not playing"),
    }
    let (a, n) = charades::handle_keys(&[AppKey::Up, AppKey::Down, AppKey::Confirm], &mut s);
    assert_eq!(a, charades::PromptAction::NextPrompt);
    assert_eq!(n, 3);
    assert!(matches!(s, charades::AppState::Playing { .. }));
    let (a, n) = charades::handle_keys(&[AppKey::Back, AppKey::Down], &mut s);
    assert_eq!(a, charades::PromptAction::Nothing);
    assert_eq!(n, 2);
    assert_eq!(s.selected_difficulty(), Some(Difficulty::Medium));
    s.back_to_menu();
    assert_eq!(s.selected_difficulty(), Some(Difficulty::Easy));
}

#[test]
fn pictionary_keys() {
    let mut s = pictionary::AppState::initial();
    let (a, n) = pictionary::handle_keys(&[AppKey::Down, AppKey::Confirm], &mut s);
    assert_eq!(a, pictionary::PromptAction::Start);
    assert_eq!(n, 2);
    s.start_game(queue());
    let (a, n) = pictionary::handle_keys(&[AppKey::Confirm, AppKey::Back], &mut s);
    assert_eq!(a, pictionary::PromptAction::NextPrompt);
    assert_eq!(n, 1);
    let (a, n) = pictionary::handle_keys(&[AppKey::Back], &mut s);
    assert_eq!(a, pictionary::PromptAction::Nothing);
    assert_eq!(n, 1);
    assert!(matches!(s, pictionary::AppState::Menu { selected: 0 }));
    let (a, n) = pictionary::handle_keys(&[AppKey::Back], &mut s);
    assert_eq!(a, pictionary::PromptAction::Quit);
    assert_eq!(n, 1);
}

#[test]
fn keys_from_a_selection_past_the_menu() {
    let mut s = charades::AppState::Menu { selected: 7 };
    let (a, n) = charades::handle_keys(&[AppKey::Down], &mut s);
    assert_eq!(a, charades::PromptAction::Nothing);
    assert_eq!(n, 1);
    assert!(matches!(s, charades::AppState::Menu { selected: 2 }));
    let mut p = pictionary::AppState::Menu { selected: 4 };
    let (a, _) = pictionary::handle_keys(&[AppKey::Up, AppKey::Confirm], &mut p);
    assert_eq!(a, pictionary::PromptAction::Start);
    assert!(matches!(p, pictionary::AppState::Menu { selected: 3 }));
    let mut k = kiosk::launcher::AppState::QuitPrompt { selected: 5 };
    let a = kiosk::launcher::handle_keys(&[AppKey::Back, AppKey::Down], &mut k);
    assert_eq!(a, kiosk::launcher::Action::Nothing);
    assert!(matches!(k, kiosk::launcher::AppState::GameSelect { selected: 0 }));
}
