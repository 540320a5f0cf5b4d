use kiosk::trivia::input::{handle_keys, key_of_event, map_evdev_key, map_x11_keycode, Action, AppKey};
use kiosk::trivia::model::{
    AnswerAction, ExplanationRequest, PendingBackgroundJob, TriviaItem, TriviaRequest,
    TriviaSubject,
};
use kiosk::trivia::state::AppState;

fn item(q: &str, a: &str) -> TriviaItem {
    TriviaItem { question: q.to_string(), answer: a.to_string(), explanation: None }
}

fn ready(subject: TriviaSubject, n: usize) -> AppState {
    let items = (0..n).map(|i| item(&format!("q{}", i), &format!("a{}", i))).collect();
    AppState::Ready { request: TriviaRequest { subject }, items, current_idx: 0 }
}

fn selected(s: &AppState) -> usize {
    match s {
        AppState::SubjectMenu { selected, .. } => *selected,
        _ => panic!("not on the menu"),
    }
}

#[test]
fn subjects_and_labels() {
    assert_eq!(
        TriviaSubject::all(),
        vec![TriviaSubject::Bible, TriviaSubject::FunFacts, TriviaSubject::Riddles]
    );
    assert_eq!(TriviaSubject::FunFacts.label(), "Fun Facts");
    assert!(TriviaSubject::Bible.supports_explanation());
    assert!(!TriviaSubject::Riddles.supports_explanation());
    let r = TriviaRequest { subject: TriviaSubject::Bible };
    assert_eq!(r.menu_title(), "Bible");
    assert_eq!(r.loading_status(), "Loading Bible questions");
    assert_eq!(TriviaRequest { subject: TriviaSubject::Riddles }.loading_status(), "Loading Riddles");
    assert_eq!(AnswerAction::Continue.label(), "Continue");
    assert_eq!(AnswerAction::ExplainFurther.other().other(), AnswerAction::ExplainFurther);
}

#[test]
fn menu_moves_wrap_and_undo() {
    let mut s = AppState::initial();
    s.move_menu_up();
    assert_eq!(selected(&s), 2);
    s.move_menu_down();
    assert_eq!(selected(&s), 0);
    s.move_menu_right();
    s.move_menu_left();
    assert_eq!(selected(&s), 0);
}

#[test]
fn confirm_on_menu_starts_loading() {
    let mut s = AppState::initial();
    let (a, shown) = handle_keys(&[AppKey::Down, AppKey::Confirm], &mut s, None);
    assert_eq!(a, Action::Nothing);
    assert!(shown.is_empty());
    assert!(s.is_loading());
    match &s {
        AppState::Loading { request, status, .. } => {
            assert_eq!(request.subject, TriviaSubject::FunFacts);
            assert_eq!(status, "Loading Fun Facts");
        }
        _ => panic!("not loading"),
    }
    match s.pending_background_job() {
        Some(PendingBackgroundJob::Trivia(r)) => assert_eq!(r.subject, TriviaSubject::FunFacts),
        _ => panic!("no job"),
    }
    let (_, _) = handle_keys(&[AppKey::Back], &mut s, None);
    assert_eq!(selected(&s), 0);
}

#[test]
fn back_on_menu_quits() {
    let mut s = AppState::initial();
    let (a, _) = handle_keys(&[AppKey::Back, AppKey::Down], &mut s, None);
    assert_eq!(a, Action::Quit);
    assert_eq!(selected(&s), 0);
}

#[test]
fn load_results() {
    let mut s = AppState::initial();
    let req = TriviaRequest { subject: TriviaSubject::Riddles };
    s.apply_load_result((req, Err("boom".to_string())));
    match &s {
        AppState::Error { message, .. } => assert_eq!(message, "boom"),
        _ => panic!("no error"),
    }
    let (_, _) = handle_keys(&[AppKey::Confirm], &mut s, None);
    assert_eq!(selected(&s), 0);
    s.apply_load_result((req, Ok(vec![item("q", "a")])));
    assert!(matches!(s, AppState::Ready { current_idx: 0, .. }));
    s.confirm_menu_selection();
    s.apply_load_result_disconnected();
    assert!(matches!(s, AppState::Ready { .. }));
}

#[test]
fn disconnected_load_is_an_error() {
    let mut s = AppState::initial();
    s.confirm_menu_selection();
    s.apply_load_result_disconnected();
    match &s {
        AppState::Error { message, request } => {
            assert_eq!(message, "Background task crashed unexpectedly.");
            assert_eq!(request.subject, TriviaSubject::Bible);
        }
        _ => panic!("no error"),
    }
}

#[test]
fn a_round_marks_each_question_once_and_reloads() {
    let mut s = ready(TriviaSubject::Riddles, 2);
    let (_, shown) = handle_keys(&[AppKey::Confirm], &mut s, None);
    assert_eq!(shown.len(), 1);
    assert_eq!(shown[0].question, "q0");
    assert!(matches!(s, AppState::Question { current_idx: 0, duration_secs: 60, .. }));
    let (_, shown) = handle_keys(&[AppKey::Confirm], &mut s, None);
    assert!(shown.is_empty());
    assert!(matches!(
        s,
        AppState::Answer { current_idx: 0, selected_action: AnswerAction::Continue, .. }
    ));
    // Riddles have no explanations: the buttons do not switch.
    let (_, _) = handle_keys(&[AppKey::Down], &mut s, None);
    assert!(matches!(s, AppState::Answer { selected_action: AnswerAction::Continue, .. }));
    let (_, shown) = handle_keys(&[AppKey::Confirm], &mut s, None);
    assert_eq!(shown.len(), 1);
    assert_eq!(shown[0].question, "q1");
    assert!(matches!(s, AppState::Question { current_idx: 1, .. }));
    let (_, shown) = handle_keys(&[AppKey::Confirm, AppKey::Confirm], &mut s, None);
    assert!(shown.is_empty());
    match &s {
        AppState::Loading { request, status, .. } => {
            assert_eq!(request.subject, TriviaSubject::Riddles);
            assert_eq!(status, "Loading Riddles");
        }
        _ => panic!("not reloading"),
    }
}

#[test]
fn back_during_a_question_quits() {
    let mut s = ready(TriviaSubject::Bible, 1);
    s.start_game();
    let (a, _) = handle_keys(&[AppKey::Back], &mut s, None);
    assert_eq!(a, Action::Quit);
}

#[test]
fn explanation_is_fetched_once_and_kept() {
    let mut s = ready(TriviaSubject::Bible, 1);
    s.start_game();
    s.next_step();
    let (_, _) = handle_keys(&[AppKey::Down, AppKey::Confirm], &mut s, None);
    let (question, answer) = match &s {
        AppState::ExplanationLoading { question, answer, status, .. } => {
            assert_eq!(status, "Loading explanation");
            (question.clone(), answer.clone())
        }
        _ => panic!("not loading an explanation"),
    };
    assert_eq!(question, "q0");
    assert_eq!(answer, "a0");
    match s.pending_background_job() {
        Some(PendingBackgroundJob::Explanation(r)) => assert_eq!(r.question, "q0"),
        _ => panic!("no job"),
    }
    let req = ExplanationRequest { question, answer };
    s.apply_explanation_result((req, Ok("because".to_string())));
    match &s {
        AppState::Explanation { explanation, scroll_offset, items, .. } => {
            assert_eq!(explanation, "because");
            assert_eq!(*scroll_offset, 0);
            assert_eq!(items[0].explanation.as_deref(), Some("because"));
        }
        _ => panic!("no explanation"),
    }
    let (_, _) = handle_keys(&[AppKey::Back], &mut s, None);
    assert!(matches!(s, AppState::Answer { selected_action: AnswerAction::Continue, .. }));
    s.move_answer_down();
    s.confirm_answer_selection();
    match &s {
        AppState::Explanation { explanation, .. } => assert_eq!(explanation, "because"),
        _ => panic!("explanation not kept"),
    }
}

#[test]
fn failed_explanation_returns_to_answer() {
    let mut s = ready(TriviaSubject::FunFacts, 1);
    s.start_game();
    s.next_step();
    s.move_answer_down();
    s.begin_explanation();
    let req = ExplanationRequest { question: "q0".to_string(), answer: "a0".to_string() };
    s.apply_explanation_result((req, Err("offline".to_string())));
    assert!(matches!(s, AppState::Answer { selected_action: AnswerAction::Continue, .. }));
    s.begin_explanation();
    s.apply_explanation_result_disconnected();
    assert!(matches!(s, AppState::Answer { .. }));
}

#[test]
fn explanation_pages_then_returns() {
    let mut s = ready(TriviaSubject::Bible, 1);
    s.start_game();
    s.next_step();
    s.move_answer_down();
    s.begin_explanation();
    s.apply_explanation_result((
        ExplanationRequest { question: "q0".to_string(), answer: "a0".to_string() },
        Ok("long".to_string()),
    ));
    let (_, _) = handle_keys(&[AppKey::Confirm], &mut s, Some((25, 10)));
    assert!(matches!(s, AppState::Explanation { scroll_offset: 10, .. }));
    let (_, _) = handle_keys(&[AppKey::Confirm], &mut s, Some((25, 10)));
    assert!(matches!(s, AppState::Explanation { scroll_offset: 15, .. }));
    let (_, _) = handle_keys(&[AppKey::Confirm], &mut s, Some((25, 10)));
    assert!(matches!(s, AppState::Answer { .. }));
}

#[test]
fn see_question_from_answer() {
    let mut s = ready(TriviaSubject::Bible, 1);
    s.start_game();
    s.next_step();
    let (_, shown) = handle_keys(&[AppKey::SeeQuestion], &mut s, None);
    assert!(shown.is_empty());
    assert!(matches!(s, AppState::Question { current_idx: 0, .. }));
    s.update();
    assert!(!s.is_loading());
}

#[test]
fn trivia_keys_from_codes() {
    assert_eq!(map_evdev_key(1), Some(AppKey::Back));
    assert_eq!(map_evdev_key(14), Some(AppKey::Back));
    assert_eq!(map_evdev_key(16), Some(AppKey::Back));
    assert_eq!(map_evdev_key(17), Some(AppKey::Up));
    assert_eq!(map_evdev_key(103), Some(AppKey::Up));
    assert_eq!(map_evdev_key(108), Some(AppKey::Down));
    assert_eq!(map_evdev_key(105), Some(AppKey::Left));
    assert_eq!(map_evdev_key(30), Some(AppKey::Left));
    assert_eq!(map_evdev_key(106), Some(AppKey::Right));
    assert_eq!(map_evdev_key(32), Some(AppKey::Right));
    assert_eq!(map_evdev_key(28), Some(AppKey::Confirm));
    assert_eq!(map_evdev_key(96), Some(AppKey::Confirm));
    assert_eq!(map_evdev_key(57), Some(AppKey::Confirm));
    assert_eq!(map_evdev_key(31), Some(AppKey::SeeQuestion));
    assert_eq!(map_evdev_key(2), None);
    assert_eq!(map_x11_keycode(9), Some(AppKey::Back));
    assert_eq!(map_x11_keycode(39), Some(AppKey::SeeQuestion));
    assert_eq!(map_x11_keycode(113), Some(AppKey::Left));
    assert_eq!(map_x11_keycode(3), None);
    assert_eq!(key_of_event(1, 28, 1), Some(AppKey::Confirm));
    assert_eq!(key_of_event(1, 28, 0), None);
    assert_eq!(key_of_event(2, 28, 1), None);
}

#[test]
fn see_question_from_explanation() {
    let mut s = ready(TriviaSubject::Bible, 2);
    s.start_game();
    s.next_step();
    s.move_answer_down();
    s.begin_explanation();
    s.apply_explanation_result((
        ExplanationRequest { question: "q0".to_string(), answer: "a0".to_string() },
        Ok("because".to_string()),
    ));
    let (a, shown) = handle_keys(&[AppKey::SeeQuestion], &mut s, Some((3, 10)));
    assert_eq!(a, Action::Nothing);
    assert!(shown.is_empty());
    match &s {
        AppState::Question { current_idx, items, request, duration_secs, .. } => {
            assert_eq!(*current_idx, 0);
            assert_eq!(items.len(), 2);
            assert_eq!(request.subject, TriviaSubject::Bible);
            assert_eq!(*duration_secs, 60);
        }
        _ => panic!("not the question"),
    }
}

#[test]
fn keys_on_screens_with_an_index_past_the_items() {
    let items = vec![item("q0", "a0")];
    let mut s = AppState::Answer {
        request: TriviaRequest { subject: TriviaSubject::Riddles },
        items,
        current_idx: 7,
        selected_action: AnswerAction::Continue,
    };
    let (a, shown) = handle_keys(&[AppKey::Confirm], &mut s, None);
    assert_eq!(a, Action::Nothing);
    assert!(shown.is_empty());
    assert!(s.is_loading());
    let mut s = AppState::Ready { request: TriviaRequest { subject: TriviaSubject::Bible }, items: vec![], current_idx: 3 };
    let (_, shown) = handle_keys(&[AppKey::Confirm, AppKey::Confirm], &mut s, None);
    assert!(shown.is_empty());
    assert!(matches!(s, AppState::Answer { current_idx: 3, .. }));
}
