use kiosk::charades::{
    bit_is_set, difficulty_filename, key_of_event, load_queue, map_key, parse_prompts, Difficulty,
    WordQueue,
};
use kiosk::launcher::AppKey;
use kiosk::pictionary::{x11_keycode_to_appkey, AppState, MenuSelection, MENU_ITEMS};

#[test]
fn prompts_are_trimmed_non_blank_lines() {
    let p = parse_prompts("  apple \n\n\tbanana split\r\n   \ncherry");
    assert_eq!(p, vec!["apple".to_string(), "banana split".to_string(), "cherry".to_string()]);
    assert!(parse_prompts(" \n\n ").is_empty());
    assert_eq!(parse_prompts("one\n"), vec!["one".to_string()]);
}

#[test]
fn difficulty_files() {
    assert_eq!(difficulty_filename(Difficulty::Easy), "easy.txt");
    assert_eq!(difficulty_filename(Difficulty::Medium), "medium.txt");
    assert_eq!(difficulty_filename(Difficulty::Hard), "hard.txt");
}

#[test]
fn queue_deals_each_prompt_once_per_shuffle() {
    let words: Vec<String> = ["a", "b", "c", "d"].iter().map(|s| s.to_string()).collect();
    let mut q = WordQueue::new(words.clone());
    for _round in 0..3 {
        let mut dealt: Vec<String> = (0..4).map(|_| q.next()).collect();
        dealt.sort();
        assert_eq!(dealt, words);
    }
}

#[test]
fn load_queue_needs_a_prompt() {
    assert!(load_queue("\n  \n").is_none());
    let mut q = load_queue("  only \n").unwrap();
    assert_eq!(q.next(), "only");
    assert_eq!(q.next(), "only");
}

#[test]
fn evdev_keys() {
    assert_eq!(map_key(103), Some(AppKey::Up));
    assert_eq!(map_key(17), Some(AppKey::Up));
    assert_eq!(map_key(108), Some(AppKey::Down));
    assert_eq!(map_key(31), Some(AppKey::Down));
    assert_eq!(map_key(28), Some(AppKey::Confirm));
    assert_eq!(map_key(96), Some(AppKey::Confirm));
    assert_eq!(map_key(57), Some(AppKey::Confirm));
    assert_eq!(map_key(1), Some(AppKey::Back));
    assert_eq!(map_key(16), Some(AppKey::Back));
    assert_eq!(map_key(14), Some(AppKey::Back));
    assert_eq!(map_key(30), None);
    assert_eq!(key_of_event(1, 28, 1), Some(AppKey::Confirm));
    assert_eq!(key_of_event(1, 28, 0), None);
    assert_eq!(key_of_event(2, 28, 1), None);
}

#[test]
fn bit_sets() {
    let bits = [0b0000_0010u8, 0b1000_0000u8];
    assert!(bit_is_set(&bits, 1));
    assert!(!bit_is_set(&bits, 0));
    assert!(bit_is_set(&bits, 15));
    assert!(!bit_is_set(&bits, 14));
    assert!(!bit_is_set(&bits, 16));
    assert!(!bit_is_set(&[], 0));
}

#[test]
fn x11_keys() {
    assert_eq!(x11_keycode_to_appkey(9), Some(AppKey::Back));
    assert_eq!(x11_keycode_to_appkey(22), Some(AppKey::Back));
    assert_eq!(x11_keycode_to_appkey(24), Some(AppKey::Back));
    assert_eq!(x11_keycode_to_appkey(25), Some(AppKey::Up));
    assert_eq!(x11_keycode_to_appkey(111), Some(AppKey::Up));
    assert_eq!(x11_keycode_to_appkey(36), Some(AppKey::Confirm));
    assert_eq!(x11_keycode_to_appkey(65), Some(AppKey::Confirm));
    assert_eq!(x11_keycode_to_appkey(104), Some(AppKey::Confirm));
    assert_eq!(x11_keycode_to_appkey(39), Some(AppKey::Down));
    assert_eq!(x11_keycode_to_appkey(116), Some(AppKey::Down));
    assert_eq!(x11_keycode_to_appkey(10), None);
}

#[test]
fn pictionary_round() {
    assert_eq!(MenuSelection::Start.label(), "Start");
    assert_eq!(MENU_ITEMS.len(), 1);
    let mut s = AppState::initial();
    s.menu_up();
    s.menu_down();
    assert!(matches!(s, AppState::Menu { selected: 0 }));
    let q = WordQueue::new(vec!["cat".to_string(), "dog".to_string()]);
    s.start_game(q);
    let first = match &s {
        AppState::Playing { current_prompt, .. } => current_prompt.clone(),
        _ => panic!("not playing"),
    };
    s.next_prompt();
    let second = match &s {
        AppState::Playing { current_prompt, .. } => current_prompt.clone(),
        _ => panic!("not playing"),
    };
    let mut both = vec![first, second];
    both.sort();
    assert_eq!(both, vec!["cat".to_string(), "dog".to_string()]);
    s.back_to_menu();
    assert!(matches!(s, AppState::Menu { selected: 0 }));
}
