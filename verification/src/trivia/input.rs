//! The keys of the trivia game and what each does on each screen.
use vstd::prelude::*;
use crate::charades::EV_KEY;
use crate::trivia::model::{ShownQuestion, TriviaRequest};
use crate::trivia::state::{lemma_items_fit, shown_view, subject_menu_view, AppState, StateView};

verus! {

/// Platform-agnostic key actions understood by the game.
#[derive(Debug, Clone, Copy, PartialEq, Eq, Structural)]
pub enum AppKey {
    Up,
    Down,
    Left,
    Right,
    /// Enter / Space
    Confirm,
    /// Escape / Backspace / Q
    Back,
    /// S: shows the current question from the answer and explanation screens
    SeeQuestion,
}

#[derive(Debug, Clone, Copy, PartialEq, Eq, Structural)]
pub enum Action {
    Nothing,
    Quit,
}

/// The trivia key of a Linux evdev key code: Escape, Backspace and Q go back;
/// W and Up go up; Down goes down; A and Left go left; D and Right go right;
/// Enter, keypad Enter and Space confirm; S shows the question.
pub open spec fn evdev_key(code: u16) -> Option<AppKey> {
    if code == 1 || code == 14 || code == 16 {
        Some(AppKey::Back)
    } else if code == 17 || code == 103 {
        Some(AppKey::Up)
    } else if code == 108 {
        Some(AppKey::Down)
    } else if code == 30 || code == 105 {
        Some(AppKey::Left)
    } else if code == 32 || code == 106 {
        Some(AppKey::Right)
    } else if code == 28 || code == 96 || code == 57 {
        Some(AppKey::Confirm)
    } else if code == 31 {
        Some(AppKey::SeeQuestion)
    } else {
        None
    }
}

pub fn map_evdev_key(code: u16) -> (r: Option<AppKey>)
    ensures
        r == evdev_key(code),
{
    match code {
        1 | 14 | 16 => Some(AppKey::Back),
        17 | 103 => Some(AppKey::Up),
        108 => Some(AppKey::Down),
        30 | 105 => Some(AppKey::Left),
        32 | 106 => Some(AppKey::Right),
        28 | 96 | 57 => Some(AppKey::Confirm),
        31 => Some(AppKey::SeeQuestion),
        _ => None,
    }
}

/// The trivia key of an X11 hardware key code, which is the evdev code plus 8.
pub fn map_x11_keycode(code: u8) -> (r: Option<AppKey>)
    ensures
        r == (if code >= 8 {
            evdev_key((code - 8) as u16)
        } else {
            None
        }),
{
    if code >= 8 {
        map_evdev_key((code - 8) as u16)
    } else {
        None
    }
}

/// The trivia key that an input event presses: a key event going down
/// (value 1) with a code the game uses.
pub fn key_of_event(ev_type: u16, code: u16, value: i32) -> (r: Option<AppKey>)
    ensures
        r == (if ev_type == EV_KEY && value == 1 {
            evdev_key(code)
        } else {
            None
        }),
{
    if ev_type == EV_KEY && value == 1 {
        map_evdev_key(code)
    } else {
        None
    }
}

/// What one key does: the next screen, whether the game quits, and the
/// question that it puts on screen, if any.
pub open spec fn key_step(v: StateView, key: AppKey, page_info: Option<(usize, usize)>) -> (
    StateView,
    bool,
    Option<(TriviaRequest, Seq<char>)>,
) {
    match v {
        StateView::SubjectMenu { .. } => match key {
            AppKey::Up | AppKey::Left => (v.menu_prev(), false, None),
            AppKey::Down | AppKey::SeeQuestion | AppKey::Right => (v.menu_next(), false, None),
            AppKey::Confirm => (v.confirm_menu(), false, None),
            AppKey::Back => (v, true, None),
        },
        StateView::Loading { .. } => match key {
            AppKey::Back => (subject_menu_view(), false, None),
            _ => (v, false, None),
        },
        StateView::Error { .. } => match key {
            AppKey::Confirm | AppKey::Back => (subject_menu_view(), false, None),
            _ => (v, false, None),
        },
        StateView::Ready { .. } => match key {
            AppKey::Confirm => (v.start_game(), false, v.start_game_shown()),
            AppKey::Back => (v, true, None),
            _ => (v, false, None),
        },
        StateView::Question { .. } => match key {
            AppKey::Confirm => (v.next_step(), false, v.next_step_shown()),
            AppKey::Back => (v, true, None),
            _ => (v, false, None),
        },
        StateView::Answer { .. } => match key {
            AppKey::Left | AppKey::Right | AppKey::Up | AppKey::Down => (
                v.toggle_answer_action(),
                false,
                None,
            ),
            AppKey::Confirm => (v.confirm_answer(), false, v.confirm_answer_shown()),
            AppKey::SeeQuestion => (v.back_to_question(), false, None),
            AppKey::Back => (v, true, None),
        },
        StateView::ExplanationLoading { .. } => match key {
            AppKey::Back | AppKey::SeeQuestion => (v.back_to_question(), false, None),
            _ => (v, false, None),
        },
        StateView::Explanation { .. } => match key {
            AppKey::Confirm => match page_info {
                Some((total, visible)) => (
                    v.page_forward(total as nat, visible as nat),
                    false,
                    None,
                ),
                None => (v.back_to_answer(), false, None),
            },
            AppKey::SeeQuestion => (v.back_to_question(), false, None),
            AppKey::Back => (v.back_to_answer(), false, None),
            _ => (v, false, None),
        },
    }
}

pub open spec fn opt_to_seq<A>(o: Option<A>) -> Seq<A> {
    match o {
        Some(a) => seq![a],
        None => Seq::<A>::empty(),
    }
}

/// The keys taken in order until one quits: the final screen, whether the
/// game quits, and the questions put on screen on the way.
pub open spec fn run_keys(
    v: StateView,
    keys: Seq<AppKey>,
    page_info: Option<(usize, usize)>,
) -> (StateView, bool, Seq<(TriviaRequest, Seq<char>)>)
    decreases keys.len(),
{
    if keys.len() == 0 {
        (v, false, Seq::empty())
    } else {
        let (v1, q1, s1) = run_keys(v, keys.drop_last(), page_info);
        if q1 {
            (v1, q1, s1)
        } else {
            let (v2, q2, s2) = key_step(v1, keys.last(), page_info);
            (v2, q2, s1 + opt_to_seq(s2))
        }
    }
}

pub open spec fn shown_views(s: Seq<ShownQuestion>) -> Seq<(TriviaRequest, Seq<char>)> {
    s.map_values(|q: ShownQuestion| (q.request, q.question@))
}

/// Every key keeps the screen well formed.
pub proof fn lemma_key_step_keeps_wf(v: StateView, key: AppKey, page_info: Option<(usize, usize)>)
    requires
        v.wf(),
    ensures
        key_step(v, key, page_info).0.wf(),
{
    match v {
        StateView::ExplanationLoading { request, items, current_idx, .. } => {
            assert(v.apply_explanation(Ok(Seq::empty())).wf());
        },
        _ => {},
    }
}

/// What a key needs of the screen it is pressed on: confirming on the subject
/// menu reads the subject at the selection, moving down there counts one past
/// it, and confirming on the answer screen counts one past the question.
pub open spec fn key_ok(v: StateView, key: AppKey) -> bool {
    match v {
        StateView::SubjectMenu { subjects, selected } => match key {
            AppKey::Confirm => subjects.len() == 0 || selected < subjects.len(),
            AppKey::Down | AppKey::SeeQuestion | AppKey::Right => subjects.len() == 0 || selected
                < usize::MAX,
            _ => true,
        },
        StateView::Answer { current_idx, .. } => match key {
            AppKey::Confirm => current_idx < usize::MAX,
            _ => true,
        },
        _ => true,
    }
}

/// Every key of the run, up to one that quits, meets `key_ok` on the screen
/// it is pressed on.
pub open spec fn keys_ok(v: StateView, keys: Seq<AppKey>, page_info: Option<(usize, usize)>) -> bool {
    forall|k: int|
        0 <= k < keys.len() && !#[trigger] run_keys(v, keys.take(k), page_info).1 ==> key_ok(
            run_keys(v, keys.take(k), page_info).0,
            keys[k],
        )
}

proof fn lemma_run_keys_keeps_wf(v: StateView, keys: Seq<AppKey>, page_info: Option<(usize, usize)>)
    requires
        v.wf(),
        v.items_fit(),
    ensures
        run_keys(v, keys, page_info).0.wf(),
        run_keys(v, keys, page_info).0.items_fit(),
    decreases keys.len(),
{
    if keys.len() > 0 {
        lemma_run_keys_keeps_wf(v, keys.drop_last(), page_info);
        let v1 = run_keys(v, keys.drop_last(), page_info).0;
        lemma_key_step_keeps_wf(v1, keys.last(), page_info);
        assert(subject_menu_view().items_fit());
    }
}

/// From a well-formed screen of the game, every run of keys can be taken.
pub proof fn lemma_wf_takes_any_keys(s: &AppState, keys: Seq<AppKey>, page_info: Option<(usize, usize)>)
    requires
        s@.wf(),
    ensures
        keys_ok(s@, keys, page_info),
{
    lemma_items_fit(s);
    assert forall|k: int|
        0 <= k < keys.len() && !#[trigger] run_keys(s@, keys.take(k), page_info).1 implies key_ok(
        run_keys(s@, keys.take(k), page_info).0,
        keys[k],
    ) by {
        lemma_run_keys_keeps_wf(s@, keys.take(k), page_info);
    }
}

/// Once a key has quit, the keys after it change nothing.
pub proof fn lemma_run_keys_after_quit(
    v: StateView,
    keys: Seq<AppKey>,
    k: int,
    page_info: Option<(usize, usize)>,
)
    requires
        0 <= k <= keys.len(),
        run_keys(v, keys.take(k), page_info).1,
    ensures
        run_keys(v, keys, page_info) == run_keys(v, keys.take(k), page_info),
    decreases keys.len() - k,
{
    if k < keys.len() {
        assert(keys.take(k + 1).drop_last() =~= keys.take(k));
        lemma_run_keys_after_quit(v, keys, k + 1, page_info);
    } else {
        assert(keys.take(k) =~= keys);
    }
}

/// Takes the keys of one frame in order. Returns whether the game quits,
/// and the questions put on screen, to be recorded as seen.
pub fn handle_keys(
    keys: &[AppKey],
    state: &mut AppState,
    explanation_page_info: Option<(usize, usize)>,
) -> (r: (Action, Vec<ShownQuestion>))
    requires
        keys_ok(old(state)@, keys@, explanation_page_info),
    ensures
        run_keys(old(state)@, keys@, explanation_page_info) == (
            final(state)@,
            r.0 == Action::Quit,
            shown_views(r.1@),
        ),
        old(state)@.wf() ==> final(state)@.wf(),
{
    let mut shown: Vec<ShownQuestion> = Vec::new();
    let ghost v0 = state@;
    let mut i: usize = 0;
    assert(keys@.take(0) =~= Seq::<AppKey>::empty());
    while i < keys.len()
        invariant
            i <= keys@.len(),
            v0 == old(state)@,
            keys_ok(v0, keys@, explanation_page_info),
            v0.wf() ==> state@.wf(),
            run_keys(v0, keys@.take(i as int), explanation_page_info) == (
                state@,
                false,
                shown_views(shown@),
            ),
        decreases keys@.len() - i,
    {
        let key = keys[i];
        let ghost before = state@;
        let ghost shown_before = shown@;
        proof {
            assert(keys@.take(i + 1).drop_last() =~= keys@.take(i as int));
            assert(keys@.take(i + 1).last() == key);
            if before.wf() {
                lemma_key_step_keeps_wf(before, key, explanation_page_info);
            }
            assert(!run_keys(v0, keys@.take(i as int), explanation_page_info).1);
            assert(key_ok(before, key));
        }
        let mut quit = false;
        let mut new_shown: Option<ShownQuestion> = None;
        match state {
            AppState::SubjectMenu { .. } => match key {
                AppKey::Up => state.move_menu_up(),
                AppKey::Down | AppKey::SeeQuestion => state.move_menu_down(),
                AppKey::Left => state.move_menu_left(),
                AppKey::Right => state.move_menu_right(),
                AppKey::Confirm => state.confirm_menu_selection(),
                AppKey::Back => {
                    quit = true;
                },
            },
            AppState::Loading { .. } => match key {
                AppKey::Back => {
                    state.return_to_subject_menu();
                },
                _ => {},
            },
            AppState::Error { .. } => match key {
                AppKey::Confirm | AppKey::Back => {
                    state.return_to_subject_menu();
                },
                _ => {},
            },
            AppState::Ready { .. } => match key {
                AppKey::Confirm => {
                    new_shown = state.start_game();
                },
                AppKey::Back => {
                    quit = true;
                },
                _ => {},
            },
            AppState::Question { .. } => match key {
                AppKey::Confirm => {
                    new_shown = state.next_step();
                },
                AppKey::Back => {
                    quit = true;
                },
                _ => {},
            },
            AppState::Answer { .. } => match key {
                AppKey::Left | AppKey::Right | AppKey::Up | AppKey::Down => {
                    state.move_answer_down();
                },
                AppKey::Confirm => {
                    new_shown = state.confirm_answer_selection();
                },
                AppKey::SeeQuestion => state.return_to_question(),
                AppKey::Back => {
                    quit = true;
                },
            },
            AppState::ExplanationLoading { .. } => match key {
                AppKey::Back | AppKey::SeeQuestion => state.return_to_question(),
                _ => {},
            },
            AppState::Explanation { .. } => match key {
                AppKey::Confirm => {
                    if let Some((total, visible)) = explanation_page_info {
                        state.explanation_page_forward(total, visible);
                    } else {
                        state.return_to_answer();
                    }
                },
                AppKey::SeeQuestion => state.return_to_question(),
                AppKey::Back => state.return_to_answer(),
                _ => {},
            },
        }
        let ghost ns = shown_view(new_shown);
        proof {
            assert(key_step(before, key, explanation_page_info) == (state@, quit, ns));
        }
        match new_shown {
            Some(q) => {
                shown.push(q);
            },
            None => {},
        }
        proof {
            assert(shown_views(shown@) =~= shown_views(shown_before) + opt_to_seq(ns));
        }
        if quit {
            proof {
                assert(run_keys(v0, keys@.take(i + 1), explanation_page_info) == (
                    state@,
                    true,
                    shown_views(shown@),
                ));
                lemma_run_keys_after_quit(v0, keys@, i + 1, explanation_page_info);
            }
            return (Action::Quit, shown);
        }
        i = i + 1;
    }
    assert(keys@.take(keys@.len() as int) =~= keys@);
    (Action::Nothing, shown)
}

} // verus!
