//! The screens of the trivia game and the moves between them.
use vstd::prelude::*;
use std::time::Instant;
use crate::trivia::clock::now_instant;
use crate::trivia::model::{
    all_subjects, clone_items, items_view, loading_status_spec, other_action,
    subject_supports_explanation, AnswerAction, ExplanationRequest, ItemView,
    PendingBackgroundJob, ShownQuestion, TriviaItem, TriviaRequest, TriviaSubject,
};

verus! {

/// Seconds that a question stays on screen.
pub const QUESTION_SECS: u64 = 60;

pub enum AppState {
    SubjectMenu { subjects: Vec<TriviaSubject>, selected: usize },
    Loading { request: TriviaRequest, status: String, started_at: Instant },
    Error { request: TriviaRequest, message: String },
    Ready { request: TriviaRequest, items: Vec<TriviaItem>, current_idx: usize },
    Question {
        request: TriviaRequest,
        items: Vec<TriviaItem>,
        current_idx: usize,
        start_time: Instant,
        duration_secs: u64,
    },
    Answer {
        request: TriviaRequest,
        items: Vec<TriviaItem>,
        current_idx: usize,
        selected_action: AnswerAction,
    },
    ExplanationLoading {
        request: TriviaRequest,
        items: Vec<TriviaItem>,
        current_idx: usize,
        question: String,
        answer: String,
        status: String,
        started_at: Instant,
    },
    Explanation {
        request: TriviaRequest,
        items: Vec<TriviaItem>,
        current_idx: usize,
        explanation: String,
        scroll_offset: usize,
    },
}

/// A screen of the game as mathematical values; the clock readings that the
/// screens carry for display are left out.
#[verifier::ext_equal]
pub enum StateView {
    SubjectMenu { subjects: Seq<TriviaSubject>, selected: nat },
    Loading { request: TriviaRequest, status: Seq<char> },
    Error { request: TriviaRequest, message: Seq<char> },
    Ready { request: TriviaRequest, items: Seq<ItemView>, current_idx: nat },
    Question { request: TriviaRequest, items: Seq<ItemView>, current_idx: nat, duration_secs: nat },
    Answer {
        request: TriviaRequest,
        items: Seq<ItemView>,
        current_idx: nat,
        selected_action: AnswerAction,
    },
    ExplanationLoading {
        request: TriviaRequest,
        items: Seq<ItemView>,
        current_idx: nat,
        question: Seq<char>,
        answer: Seq<char>,
        status: Seq<char>,
    },
    Explanation {
        request: TriviaRequest,
        items: Seq<ItemView>,
        current_idx: nat,
        explanation: Seq<char>,
        scroll_offset: nat,
    },
}

impl View for AppState {
    type V = StateView;

    open spec fn view(&self) -> StateView {
        match *self {
            AppState::SubjectMenu { subjects, selected } => StateView::SubjectMenu {
                subjects: subjects@,
                selected: selected as nat,
            },
            AppState::Loading { request, status, .. } => StateView::Loading {
                request,
                status: status@,
            },
            AppState::Error { request, message } => StateView::Error {
                request,
                message: message@,
            },
            AppState::Ready { request, items, current_idx } => StateView::Ready {
                request,
                items: items_view(items@),
                current_idx: current_idx as nat,
            },
            AppState::Question { request, items, current_idx, duration_secs, .. } =>
                StateView::Question {
                request,
                items: items_view(items@),
                current_idx: current_idx as nat,
                duration_secs: duration_secs as nat,
            },
            AppState::Answer { request, items, current_idx, selected_action } =>
                StateView::Answer {
                request,
                items: items_view(items@),
                current_idx: current_idx as nat,
                selected_action,
            },
            AppState::ExplanationLoading {
                request,
                items,
                current_idx,
                question,
                answer,
                status,
                ..
            } => StateView::ExplanationLoading {
                request,
                items: items_view(items@),
                current_idx: current_idx as nat,
                question: question@,
                answer: answer@,
                status: status@,
            },
            AppState::Explanation { request, items, current_idx, explanation, scroll_offset } =>
                StateView::Explanation {
                request,
                items: items_view(items@),
                current_idx: current_idx as nat,
                explanation: explanation@,
                scroll_offset: scroll_offset as nat,
            },
        }
    }
}

/// What a background job delivers, as mathematical values.
pub enum JobView {
    Trivia(TriviaRequest),
    Explanation { question: Seq<char>, answer: Seq<char> },
}

pub open spec fn subject_menu_view() -> StateView {
    StateView::SubjectMenu { subjects: all_subjects(), selected: 0 }
}

pub open spec fn loading_view(request: TriviaRequest) -> StateView {
    StateView::Loading { request, status: loading_status_spec(request.subject) }
}

/// The item at `idx` with its explanation recorded.
pub open spec fn with_explanation(items: Seq<ItemView>, idx: nat, e: Seq<char>) -> Seq<ItemView> {
    if idx < items.len() {
        items.update(
            idx as int,
            ItemView { explanation: Some(e), ..items[idx as int] },
        )
    } else {
        items
    }
}

impl StateView {
    /// The screens that the invariants of the game allow: a menu selection
    /// within the menu, and a question position within the round.
    pub open spec fn wf(self) -> bool {
        match self {
            StateView::SubjectMenu { subjects, selected } => subjects.len() == 0 || selected
                < subjects.len(),
            StateView::Ready { items, current_idx, .. } => current_idx == 0 || current_idx
                < items.len(),
            StateView::Question { items, current_idx, .. } => current_idx == 0 || current_idx
                < items.len(),
            StateView::Answer { items, current_idx, .. } => current_idx == 0 || current_idx
                < items.len(),
            StateView::ExplanationLoading { items, current_idx, .. } => current_idx == 0
                || current_idx < items.len(),
            StateView::Explanation { items, current_idx, .. } => current_idx == 0 || current_idx
                < items.len(),
            _ => true,
        }
    }

    /// The lists of a screen fit a `Vec`, as those of every real screen do.
    pub open spec fn items_fit(self) -> bool {
        match self {
            StateView::SubjectMenu { subjects, .. } => subjects.len() <= usize::MAX,
            StateView::Ready { items, .. } => items.len() <= usize::MAX,
            StateView::Question { items, .. } => items.len() <= usize::MAX,
            StateView::Answer { items, .. } => items.len() <= usize::MAX,
            StateView::ExplanationLoading { items, .. } => items.len() <= usize::MAX,
            StateView::Explanation { items, .. } => items.len() <= usize::MAX,
            _ => true,
        }
    }

    pub open spec fn is_loading(self) -> bool {
        self is Loading || self is ExplanationLoading
    }

    pub open spec fn pending_job(self) -> Option<JobView> {
        match self {
            StateView::Loading { request, .. } => Some(JobView::Trivia(request)),
            StateView::ExplanationLoading { question, answer, .. } => Some(
                JobView::Explanation { question, answer },
            ),
            _ => None,
        }
    }

    /// Up and left: the previous subject, wrapping to the last.
    pub open spec fn menu_prev(self) -> StateView {
        match self {
            StateView::SubjectMenu { subjects, selected } => if subjects.len() == 0 {
                self
            } else {
                StateView::SubjectMenu {
                    subjects,
                    selected: if selected == 0 {
                        (subjects.len() - 1) as nat
                    } else {
                        (selected - 1) as nat
                    },
                }
            },
            _ => self,
        }
    }

    /// Down and right: the next subject, wrapping to the first.
    pub open spec fn menu_next(self) -> StateView {
        match self {
            StateView::SubjectMenu { subjects, selected } => if subjects.len() == 0 {
                self
            } else {
                StateView::SubjectMenu { subjects, selected: (selected + 1) % subjects.len() }
            },
            _ => self,
        }
    }

    pub open spec fn confirm_menu(self) -> StateView {
        match self {
            StateView::SubjectMenu { subjects, selected } => if subjects.len() == 0 {
                self
            } else {
                loading_view(TriviaRequest { subject: subjects[selected as int] })
            },
            _ => self,
        }
    }

    pub open spec fn apply_load(
        self,
        request: TriviaRequest,
        result: Result<Seq<ItemView>, Seq<char>>,
    ) -> StateView {
        match result {
            Ok(items) => StateView::Ready { request, items, current_idx: 0 },
            Err(message) => StateView::Error { request, message },
        }
    }

    pub open spec fn apply_explanation(self, result: Result<Seq<char>, Seq<char>>) -> StateView {
        match self {
            StateView::ExplanationLoading { request, items, current_idx, .. } => match result {
                Ok(e) => StateView::Explanation {
                    request,
                    items: with_explanation(items, current_idx, e),
                    current_idx,
                    explanation: e,
                    scroll_offset: 0,
                },
                Err(_) => StateView::Answer {
                    request,
                    items,
                    current_idx,
                    selected_action: AnswerAction::Continue,
                },
            },
            _ => self,
        }
    }

    pub open spec fn load_disconnected(self) -> StateView {
        match self {
            StateView::Loading { request, .. } => StateView::Error {
                request,
                message: "Background task crashed unexpectedly."@,
            },
            _ => self,
        }
    }

    pub open spec fn explanation_disconnected(self) -> StateView {
        match self {
            StateView::ExplanationLoading { request, items, current_idx, .. } =>
                StateView::Answer {
                request,
                items,
                current_idx,
                selected_action: AnswerAction::Continue,
            },
            _ => self,
        }
    }

    pub open spec fn start_game(self) -> StateView {
        match self {
            StateView::Ready { request, items, current_idx } => StateView::Question {
                request,
                items,
                current_idx,
                duration_secs: QUESTION_SECS as nat,
            },
            _ => self,
        }
    }

    /// The question that starting the game puts on screen.
    pub open spec fn start_game_shown(self) -> Option<(TriviaRequest, Seq<char>)> {
        match self {
            StateView::Ready { request, items, current_idx } => if current_idx < items.len() {
                Some((request, items[current_idx as int].question))
            } else {
                None
            },
            _ => None,
        }
    }

    pub open spec fn toggle_answer_action(self) -> StateView {
        match self {
            StateView::Answer { request, items, current_idx, selected_action } =>
                if subject_supports_explanation(request.subject) {
                StateView::Answer {
                    request,
                    items,
                    current_idx,
                    selected_action: other_action(selected_action),
                }
            } else {
                self
            },
            _ => self,
        }
    }

    pub open spec fn back_to_answer(self) -> StateView {
        match self {
            StateView::Explanation { request, items, current_idx, .. } => StateView::Answer {
                request,
                items,
                current_idx,
                selected_action: AnswerAction::Continue,
            },
            StateView::ExplanationLoading { request, items, current_idx, .. } =>
                StateView::Answer {
                request,
                items,
                current_idx,
                selected_action: AnswerAction::Continue,
            },
            _ => self,
        }
    }

    pub open spec fn back_to_question(self) -> StateView {
        match self {
            StateView::Answer { request, items, current_idx, .. } => StateView::Question {
                request,
                items,
                current_idx,
                duration_secs: QUESTION_SECS as nat,
            },
            StateView::ExplanationLoading { request, items, current_idx, .. } =>
                StateView::Question {
                request,
                items,
                current_idx,
                duration_secs: QUESTION_SECS as nat,
            },
            StateView::Explanation { request, items, current_idx, .. } => StateView::Question {
                request,
                items,
                current_idx,
                duration_secs: QUESTION_SECS as nat,
            },
            _ => self,
        }
    }

    pub open spec fn page_forward(self, total_lines: nat, visible_lines: nat) -> StateView {
        match self {
            StateView::Explanation { request, items, current_idx, explanation, scroll_offset } => {
                let max_scroll: nat = if total_lines > visible_lines {
                    (total_lines - visible_lines) as nat
                } else {
                    0
                };
                if scroll_offset >= max_scroll {
                    self.back_to_answer()
                } else {
                    StateView::Explanation {
                        request,
                        items,
                        current_idx,
                        explanation,
                        scroll_offset: if scroll_offset + visible_lines < max_scroll {
                            scroll_offset + visible_lines
                        } else {
                            max_scroll
                        },
                    }
                }
            },
            _ => self,
        }
    }

    pub open spec fn begin_explanation(self) -> StateView {
        match self {
            StateView::Answer { request, items, current_idx, .. } => if current_idx
                < items.len() {
                match items[current_idx as int].explanation {
                    Some(cached) => StateView::Explanation {
                        request,
                        items,
                        current_idx,
                        explanation: cached,
                        scroll_offset: 0,
                    },
                    None => StateView::ExplanationLoading {
                        request,
                        items,
                        current_idx,
                        question: items[current_idx as int].question,
                        answer: items[current_idx as int].answer,
                        status: "Loading explanation"@,
                    },
                }
            } else {
                self
            },
            _ => self,
        }
    }

    pub open spec fn next_step(self) -> StateView {
        match self {
            StateView::Question { request, items, current_idx, .. } => StateView::Answer {
                request,
                items,
                current_idx,
                selected_action: AnswerAction::Continue,
            },
            StateView::Answer { request, items, current_idx, .. } => if current_idx + 1
                < items.len() {
                StateView::Question {
                    request,
                    items,
                    current_idx: current_idx + 1,
                    duration_secs: QUESTION_SECS as nat,
                }
            } else {
                loading_view(request)
            },
            _ => self,
        }
    }

    /// The question that `next_step` puts on screen.
    pub open spec fn next_step_shown(self) -> Option<(TriviaRequest, Seq<char>)> {
        match self {
            StateView::Answer { request, items, current_idx, .. } => if current_idx + 1
                < items.len() {
                Some((request, items[current_idx + 1 as int].question))
            } else {
                None
            },
            _ => None,
        }
    }

    pub open spec fn confirm_answer(self) -> StateView {
        match self {
            StateView::Answer { selected_action, .. } => match selected_action {
                AnswerAction::ExplainFurther => self.begin_explanation(),
                AnswerAction::Continue => self.next_step(),
            },
            _ => self,
        }
    }

    pub open spec fn confirm_answer_shown(self) -> Option<(TriviaRequest, Seq<char>)> {
        match self {
            StateView::Answer { selected_action, .. } => match selected_action {
                AnswerAction::ExplainFurther => None,
                AnswerAction::Continue => self.next_step_shown(),
            },
            _ => None,
        }
    }
}

/// The view of a record of a shown question.
pub open spec fn shown_view(s: Option<ShownQuestion>) -> Option<(TriviaRequest, Seq<char>)> {
    match s {
        Some(q) => Some((q.request, q.question@)),
        None => None,
    }
}

impl AppState {
    pub fn initial() -> (s: Self)
        ensures
            s@ == subject_menu_view(),
    {
        AppState::SubjectMenu { subjects: TriviaSubject::all(), selected: 0 }
    }

    pub fn is_loading(&self) -> (b: bool)
        ensures
            b == self@.is_loading(),
    {
        match self {
            AppState::Loading { .. } | AppState::ExplanationLoading { .. } => true,
            _ => false,
        }
    }

    pub fn pending_background_job(&self) -> (r: Option<PendingBackgroundJob>)
        ensures
            match (r, self@.pending_job()) {
                (None, None) => true,
                (Some(PendingBackgroundJob::Trivia(a)), Some(JobView::Trivia(b))) => a == b,
                (
                    Some(PendingBackgroundJob::Explanation(e)),
                    Some(JobView::Explanation { question, answer }),
                ) => e.question@ == question && e.answer@ == answer,
                _ => false,
            },
    {
        match self {
            AppState::Loading { request, .. } => Some(PendingBackgroundJob::Trivia(*request)),
            AppState::ExplanationLoading { question, answer, .. } => Some(
                PendingBackgroundJob::Explanation(
                    ExplanationRequest { question: question.clone(), answer: answer.clone() },
                ),
            ),
            _ => None,
        }
    }

    pub fn move_menu_up(&mut self)
        ensures
            final(self)@ == old(self)@.menu_prev(),
    {
        match self {
            AppState::SubjectMenu { subjects, selected } => {
                if subjects.len() == 0 {
                    return ;
                }
                *selected = if *selected == 0 {
                    subjects.len() - 1
                } else {
                    *selected - 1
                };
            },
            _ => {},
        }
    }

    pub fn move_menu_left(&mut self)
        ensures
            final(self)@ == old(self)@.menu_prev(),
    {
        match self {
            AppState::SubjectMenu { subjects, selected } => {
                if subjects.len() == 0 {
                    return ;
                }
                *selected = if *selected == 0 {
                    subjects.len() - 1
                } else {
                    *selected - 1
                };
            },
            _ => {},
        }
    }

    pub fn move_menu_down(&mut self)
        requires
            old(self)@ matches StateView::SubjectMenu { subjects, selected } ==> subjects.len() == 0
                || selected < usize::MAX,
        ensures
            final(self)@ == old(self)@.menu_next(),
    {
        match self {
            AppState::SubjectMenu { subjects, selected } => {
                if subjects.len() == 0 {
                    return ;
                }
                *selected = (*selected + 1) % subjects.len();
            },
            _ => {},
        }
    }

    pub fn move_menu_right(&mut self)
        requires
            old(self)@ matches StateView::SubjectMenu { subjects, selected } ==> subjects.len() == 0
                || selected < usize::MAX,
        ensures
            final(self)@ == old(self)@.menu_next(),
    {
        match self {
            AppState::SubjectMenu { subjects, selected } => {
                if subjects.len() == 0 {
                    return ;
                }
                *selected = (*selected + 1) % subjects.len();
            },
            _ => {},
        }
    }

    pub fn confirm_menu_selection(&mut self)
        requires
            old(self)@ matches StateView::SubjectMenu { subjects, selected } ==> subjects.len()
                == 0 || selected < subjects.len(),
        ensures
            final(self)@ == old(self)@.confirm_menu(),
    {
        match self {
            AppState::SubjectMenu { subjects, selected } => {
                if subjects.len() == 0 {
                    return ;
                }
                let subject = subjects[*selected];
                match subject {
                    TriviaSubject::Bible => {
                        let request = TriviaRequest::for_bible();
                        *self = AppState::Loading {
                            request,
                            status: request.loading_status(),
                            started_at: now_instant(),
                        };
                    },
                    TriviaSubject::FunFacts => {
                        let request = TriviaRequest { subject: TriviaSubject::FunFacts };
                        *self = AppState::Loading {
                            request,
                            status: request.loading_status(),
                            started_at: now_instant(),
                        };
                    },
                    TriviaSubject::Riddles => {
                        let request = TriviaRequest { subject: TriviaSubject::Riddles };
                        *self = AppState::Loading {
                            request,
                            status: request.loading_status(),
                            started_at: now_instant(),
                        };
                    },
                }
            },
            _ => {},
        }
    }

    pub fn return_to_subject_menu(&mut self)
        ensures
            final(self)@ == subject_menu_view(),
    {
        *self = AppState::SubjectMenu { subjects: TriviaSubject::all(), selected: 0 };
    }

    /// Takes in the outcome of loading a round: the round is ready, or the
    /// error is shown.
    pub fn apply_load_result(&mut self, load: (TriviaRequest, Result<Vec<TriviaItem>, String>))
        ensures
            final(self)@ == old(self)@.apply_load(
                load.0,
                match load.1 {
                    Ok(items) => Ok(items_view(items@)),
                    Err(m) => Err(m@),
                },
            ),
    {
        let (request, result) = load;
        match result {
            Ok(items) => { *self = AppState::Ready { request, items, current_idx: 0 } },
            Err(e) => { *self = AppState::Error { request, message: e } },
        }
    }

    /// Takes in the outcome of fetching an explanation: it is shown and kept
    /// with its item, or the answer screen comes back.
    pub fn apply_explanation_result(
        &mut self,
        load: (ExplanationRequest, Result<String, String>),
    )
        ensures
            final(self)@ == old(self)@.apply_explanation(
                match load.1 {
                    Ok(e) => Ok(e@),
                    Err(m) => Err(m@),
                },
            ),
    {
        let (_request, result) = load;
        match result {
            Ok(explanation) => {
                if let AppState::ExplanationLoading {
                    request: trivia_request,
                    items,
                    current_idx,
                    ..
                } = self {
                    let ghost before = items_view(items@);
                    if *current_idx < items.len() {
                        let mut item = items[*current_idx].clone();
                        item.explanation = Some(explanation.clone());
                        items.set(*current_idx, item);
                        assert(items_view(items@) =~= with_explanation(
                            before,
                            *current_idx as nat,
                            explanation@,
                        ));
                    }
                    let items = clone_items(items);
                    let current_idx: usize = *current_idx;
                    *self = AppState::Explanation {
                        request: *trivia_request,
                        items,
                        current_idx,
                        explanation,
                        scroll_offset: 0,
                    };
                }
            },
            Err(_message) => {
                if let AppState::ExplanationLoading {
                    request: trivia_request,
                    items,
                    current_idx,
                    ..
                } = self {
                    *self = AppState::Answer {
                        request: *trivia_request,
                        items: clone_items(items),
                        current_idx: *current_idx,
                        selected_action: AnswerAction::Continue,
                    };
                }
            },
        }
    }

    /// The background load is gone without an answer.
    pub fn apply_load_result_disconnected(&mut self)
        ensures
            final(self)@ == old(self)@.load_disconnected(),
    {
        if let AppState::Loading { request, .. } = self {
            *self = AppState::Error {
                request: *request,
                message: String::from_str("Background task crashed unexpectedly."),
            };
        }
    }

    /// The background explanation is gone without an answer.
    pub fn apply_explanation_result_disconnected(&mut self)
        ensures
            final(self)@ == old(self)@.explanation_disconnected(),
    {
        if let AppState::ExplanationLoading { request: trivia_request, items, current_idx, .. } =
            self {
            *self = AppState::Answer {
                request: *trivia_request,
                items: clone_items(items),
                current_idx: *current_idx,
                selected_action: AnswerAction::Continue,
            };
        }
    }

    /// Puts the current question on screen; returns it, to be recorded as seen.
    pub fn start_game(&mut self) -> (shown: Option<ShownQuestion>)
        ensures
            final(self)@ == old(self)@.start_game(),
            shown_view(shown) == old(self)@.start_game_shown(),
    {
        let mut shown: Option<ShownQuestion> = None;
        if let AppState::Ready { request, items, current_idx } = self {
            if *current_idx < items.len() {
                shown = Some(
                    ShownQuestion { request: *request, question: items[*current_idx].question.clone() },
                );
            }
            *self = AppState::Question {
                request: *request,
                items: clone_items(items),
                current_idx: *current_idx,
                start_time: now_instant(),
                duration_secs: QUESTION_SECS,
            };
        }
        shown
    }

    /// On the answer screen, switches between the two buttons where the
    /// subject offers explanations.
    pub fn move_answer_down(&mut self)
        ensures
            final(self)@ == old(self)@.toggle_answer_action(),
    {
        if let AppState::Answer { request, selected_action, .. } = self {
            if request.subject.supports_explanation() {
                *selected_action = (*selected_action).other();
            }
        }
    }

    /// Carries out the selected button of the answer screen.
    pub fn confirm_answer_selection(&mut self) -> (shown: Option<ShownQuestion>)
        requires
            old(self)@ matches StateView::Answer { current_idx, .. } ==> current_idx < usize::MAX,
        ensures
            final(self)@ == old(self)@.confirm_answer(),
            shown_view(shown) == old(self)@.confirm_answer_shown(),
    {
        let action = match self {
            AppState::Answer { selected_action, .. } => Some(*selected_action),
            _ => None,
        };
        match action {
            Some(AnswerAction::ExplainFurther) => {
                self.begin_explanation();
                None
            },
            Some(AnswerAction::Continue) => self.next_step(),
            None => None,
        }
    }

    /// Scrolls the explanation one page; at its end, the answer screen comes back.
    pub fn explanation_page_forward(&mut self, total_lines: usize, visible_lines: usize)
        ensures
            final(self)@ == old(self)@.page_forward(total_lines as nat, visible_lines as nat),
    {
        let should_return = if let AppState::Explanation { scroll_offset, .. } = self {
            let max_scroll: usize = total_lines.saturating_sub(visible_lines);
            if *scroll_offset >= max_scroll {
                true
            } else {
                let next: usize = *scroll_offset + visible_lines;
                *scroll_offset = if next < max_scroll {
                    next
                } else {
                    max_scroll
                };
                false
            }
        } else {
            false
        };
        if should_return {
            self.return_to_answer();
        }
    }

    pub fn return_to_answer(&mut self)
        ensures
            final(self)@ == old(self)@.back_to_answer(),
    {
        match self {
            AppState::Explanation { request, items, current_idx, .. } => {
                *self = AppState::Answer {
                    request: *request,
                    items: clone_items(items),
                    current_idx: *current_idx,
                    selected_action: AnswerAction::Continue,
                };
            },
            AppState::ExplanationLoading { request, items, current_idx, .. } => {
                *self = AppState::Answer {
                    request: *request,
                    items: clone_items(items),
                    current_idx: *current_idx,
                    selected_action: AnswerAction::Continue,
                };
            },
            _ => {},
        }
    }

    /// Shows the current question again from the answer and explanation screens.
    pub fn return_to_question(&mut self)
        ensures
            final(self)@ == old(self)@.back_to_question(),
    {
        match self {
            AppState::Answer { request, items, current_idx, .. } => {
                *self = AppState::Question {
                    request: *request,
                    items: clone_items(items),
                    current_idx: *current_idx,
                    start_time: now_instant(),
                    duration_secs: QUESTION_SECS,
                };
            },
            AppState::ExplanationLoading { request, items, current_idx, .. } => {
                *self = AppState::Question {
                    request: *request,
                    items: clone_items(items),
                    current_idx: *current_idx,
                    start_time: now_instant(),
                    duration_secs: QUESTION_SECS,
                };
            },
            AppState::Explanation { request, items, current_idx, .. } => {
                *self = AppState::Question {
                    request: *request,
                    items: clone_items(items),
                    current_idx: *current_idx,
                    start_time: now_instant(),
                    duration_secs: QUESTION_SECS,
                };
            },
            _ => {},
        }
    }

    /// Shows the explanation of the current answer: the one kept with the item,
    /// or a loading screen while it is fetched.
    pub fn begin_explanation(&mut self)
        ensures
            final(self)@ == old(self)@.begin_explanation(),
    {
        if let AppState::Answer { request, items, current_idx, .. } = self {
            if *current_idx < items.len() {
                let item = &items[*current_idx];
                match &item.explanation {
                    Some(cached) => {
                        let explanation = cached.clone();
                        *self = AppState::Explanation {
                            request: *request,
                            items: clone_items(items),
                            current_idx: *current_idx,
                            explanation,
                            scroll_offset: 0,
                        };
                    },
                    None => {
                        let question = item.question.clone();
                        let answer = item.answer.clone();
                        *self = AppState::ExplanationLoading {
                            request: *request,
                            items: clone_items(items),
                            current_idx: *current_idx,
                            question,
                            answer,
                            status: String::from_str("Loading explanation"),
                            started_at: now_instant(),
                        };
                    },
                }
            }
        }
    }

    /// From a question to its answer; from an answer to the next question,
    /// or, after the last one, to loading a new round. Returns the question
    /// put on screen, to be recorded as seen.
    pub fn next_step(&mut self) -> (shown: Option<ShownQuestion>)
        requires
            old(self)@ matches StateView::Answer { current_idx, .. } ==> current_idx < usize::MAX,
        ensures
            final(self)@ == old(self)@.next_step(),
            shown_view(shown) == old(self)@.next_step_shown(),
    {
        match self {
            AppState::Question { request, items, current_idx, .. } => {
                *self = AppState::Answer {
                    request: *request,
                    items: clone_items(items),
                    current_idx: *current_idx,
                    selected_action: AnswerAction::Continue,
                };
                None
            },
            AppState::Answer { request, items, current_idx, .. } => {
                let n: usize = items.len();
                proof {
                    assert(items_view(items@).len() == items@.len());
                }
                let next_idx: usize = *current_idx + 1;
                if next_idx < items.len() {
                    let shown = ShownQuestion {
                        request: *request,
                        question: items[next_idx].question.clone(),
                    };
                    *self = AppState::Question {
                        request: *request,
                        items: clone_items(items),
                        current_idx: next_idx,
                        start_time: now_instant(),
                        duration_secs: QUESTION_SECS,
                    };
                    Some(shown)
                } else {
                    let request = *request;
                    *self = AppState::Loading {
                        request,
                        status: request.loading_status(),
                        started_at: now_instant(),
                    };
                    None
                }
            },
            _ => None,
        }
    }

    /// Once per frame; the screens hold nothing that changes with time alone.
    pub fn update(&mut self)
        ensures
            final(self)@ == old(self)@,
    {
    }
}


/// The lists of every real screen fit a `Vec`.
pub proof fn lemma_items_fit(s: &AppState)
    ensures
        s@.items_fit(),
{
    match s {
        AppState::SubjectMenu { subjects, .. } => {
            assert(subjects@.len() == subjects.len());
        },
        AppState::Ready { items, .. } => {
            assert(items_view(items@).len() == items@.len());
            assert(items@.len() == items.len());
        },
        AppState::Question { items, .. } => {
            assert(items_view(items@).len() == items@.len());
            assert(items@.len() == items.len());
        },
        AppState::Answer { items, .. } => {
            assert(items_view(items@).len() == items@.len());
            assert(items@.len() == items.len());
        },
        AppState::ExplanationLoading { items, .. } => {
            assert(items_view(items@).len() == items@.len());
            assert(items@.len() == items.len());
        },
        AppState::Explanation { items, .. } => {
            assert(items_view(items@).len() == items@.len());
            assert(items@.len() == items.len());
        },
        _ => {},
    }
}

/// Moving up (or left) then down (or right) in the subject menu comes back
/// to the same subject, and so does the reverse.
pub proof fn lemma_menu_moves_inverse(v: StateView)
    requires
        v.wf(),
    ensures
        v.menu_prev().menu_next() == v,
        v.menu_next().menu_prev() == v,
{
    match v {
        StateView::SubjectMenu { subjects, selected } => {
            if subjects.len() > 0 {
                let n: nat = subjects.len();
                if selected > 0 {
                    vstd::arithmetic::div_mod::lemma_small_mod(selected, n);
                } else {
                    vstd::arithmetic::div_mod::lemma_mod_self_0(n as int);
                }
                if selected + 1 < n {
                    vstd::arithmetic::div_mod::lemma_small_mod(selected + 1, n);
                } else {
                    vstd::arithmetic::div_mod::lemma_mod_self_0(n as int);
                }
            }
        },
        _ => {},
    }
}

/// Switching the answer button twice selects the first one again.
pub proof fn lemma_answer_toggle_twice(v: StateView)
    ensures
        v.toggle_answer_action().toggle_answer_action() == v,
{
    match v {
        StateView::Answer { selected_action, .. } => {
            assert(other_action(other_action(selected_action)) == selected_action);
        },
        _ => {},
    }
}

/// An explanation, once fetched, is kept with its question: going back to
/// the answer and asking again shows it without loading.
pub proof fn lemma_explanation_kept(v: StateView, e: Seq<char>)
    requires
        v is ExplanationLoading,
        v->ExplanationLoading_current_idx < v->ExplanationLoading_items.len(),
    ensures
        v.apply_explanation(Ok(e)).back_to_answer().begin_explanation() == (StateView::Explanation {
            request: v->ExplanationLoading_request,
            items: with_explanation(
                v->ExplanationLoading_items,
                v->ExplanationLoading_current_idx,
                e,
            ),
            current_idx: v->ExplanationLoading_current_idx,
            explanation: e,
            scroll_offset: 0,
        }),
{
    let items = v->ExplanationLoading_items;
    let idx: nat = v->ExplanationLoading_current_idx;
    assert(with_explanation(items, idx, e)[idx as int].explanation == Some(e));
}

/// Paging through an explanation never scrolls past its last page, and at
/// the last page goes back to the answer.
pub proof fn lemma_page_forward_bounded(v: StateView, total_lines: nat, visible_lines: nat)
    requires
        v is Explanation,
    ensures
        v.page_forward(total_lines, visible_lines) is Explanation ==> v.page_forward(
            total_lines,
            visible_lines,
        )->Explanation_scroll_offset + visible_lines <= if total_lines > visible_lines {
            total_lines
        } else {
            visible_lines
        },
        v->Explanation_scroll_offset + visible_lines >= total_lines ==> v.page_forward(
            total_lines,
            visible_lines,
        ) is Answer,
{
}

/// Every move of the game keeps the screen well formed.
pub proof fn lemma_moves_keep_wf(
    v: StateView,
    request: TriviaRequest,
    load: Result<Seq<ItemView>, Seq<char>>,
    explained: Result<Seq<char>, Seq<char>>,
    total_lines: nat,
    visible_lines: nat,
)
    requires
        v.wf(),
    ensures
        v.menu_prev().wf(),
        v.menu_next().wf(),
        v.confirm_menu().wf(),
        subject_menu_view().wf(),
        v.apply_load(request, load).wf(),
        v.apply_explanation(explained).wf(),
        v.load_disconnected().wf(),
        v.explanation_disconnected().wf(),
        v.start_game().wf(),
        v.toggle_answer_action().wf(),
        v.back_to_answer().wf(),
        v.back_to_question().wf(),
        v.page_forward(total_lines, visible_lines).wf(),
        v.begin_explanation().wf(),
        v.next_step().wf(),
        v.confirm_answer().wf(),
{
}

/// Confirming on the subject menu loads exactly the subject at the selection,
/// with that subject's loading message.
pub proof fn lemma_confirm_loads_selected_subject(subjects: Seq<TriviaSubject>, selected: nat)
    requires
        selected < subjects.len(),
    ensures
        (StateView::SubjectMenu { subjects, selected }).confirm_menu() matches StateView::Loading {
            request,
            status,
        } && request == (TriviaRequest { subject: subjects[selected as int] }) && status
            == loading_status_spec(subjects[selected as int]),
{
}

} // verus!
