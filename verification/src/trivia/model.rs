//! The values the trivia game passes around: items, subjects, requests.
use vstd::prelude::*;

verus! {

/// One question with its answer, and the explanation once one was fetched.
#[derive(Debug)]
pub struct TriviaItem {
    pub question: String,
    pub answer: String,
    pub explanation: Option<String>,
}

/// What a trivia item holds, as mathematical text.
#[verifier::ext_equal]
pub struct ItemView {
    pub question: Seq<char>,
    pub answer: Seq<char>,
    pub explanation: Option<Seq<char>>,
}

pub open spec fn opt_view(o: Option<String>) -> Option<Seq<char>> {
    match o {
        Some(s) => Some(s@),
        None => None,
    }
}

impl View for TriviaItem {
    type V = ItemView;

    open spec fn view(&self) -> ItemView {
        ItemView {
            question: self.question@,
            answer: self.answer@,
            explanation: opt_view(self.explanation),
        }
    }
}

/// The views of a sequence of items.
pub open spec fn items_view(items: Seq<TriviaItem>) -> Seq<ItemView> {
    items.map_values(|i: TriviaItem| i@)
}

impl Clone for TriviaItem {
    fn clone(&self) -> (r: Self)
        ensures
            r == *self,
    {
        let explanation = match &self.explanation {
            Some(e) => Some(e.clone()),
            None => None,
        };
        TriviaItem { question: self.question.clone(), answer: self.answer.clone(), explanation }
    }
}

/// A copy of a list of items, item for item.
pub fn clone_items(items: &Vec<TriviaItem>) -> (r: Vec<TriviaItem>)
    ensures
        r@ == items@,
{
    let r = items.clone();
    assert(r@ =~= items@);
    r
}

#[derive(Debug, Clone, Copy, PartialEq, Eq, Structural)]
pub enum TriviaSubject {
    Bible,
    FunFacts,
    Riddles,
}

/// The subjects of the menu, in menu order.
pub open spec fn all_subjects() -> Seq<TriviaSubject> {
    seq![TriviaSubject::Bible, TriviaSubject::FunFacts, TriviaSubject::Riddles]
}

pub open spec fn subject_label(s: TriviaSubject) -> Seq<char> {
    match s {
        TriviaSubject::Bible => "Bible"@,
        TriviaSubject::FunFacts => "Fun Facts"@,
        TriviaSubject::Riddles => "Riddles"@,
    }
}

pub open spec fn subject_supports_explanation(s: TriviaSubject) -> bool {
    s == TriviaSubject::Bible || s == TriviaSubject::FunFacts
}

impl TriviaSubject {
    pub fn label(self) -> (r: &'static str)
        ensures
            r@ == subject_label(self),
    {
        match self {
            TriviaSubject::Bible => "Bible",
            TriviaSubject::FunFacts => "Fun Facts",
            TriviaSubject::Riddles => "Riddles",
        }
    }

    pub fn all() -> (r: Vec<TriviaSubject>)
        ensures
            r@ == all_subjects(),
    {
        let r = vec![TriviaSubject::Bible, TriviaSubject::FunFacts, TriviaSubject::Riddles];
        assert(r@ =~= all_subjects());
        r
    }

    pub fn supports_explanation(self) -> (b: bool)
        ensures
            b == subject_supports_explanation(self),
    {
        match self {
            TriviaSubject::Bible | TriviaSubject::FunFacts => true,
            TriviaSubject::Riddles => false,
        }
    }
}

#[derive(Debug, Clone, Copy, PartialEq, Eq, Structural)]
pub struct TriviaRequest {
    pub subject: TriviaSubject,
}

pub open spec fn menu_title_spec(s: TriviaSubject) -> Seq<char> {
    match s {
        TriviaSubject::Bible => "Bible"@,
        TriviaSubject::FunFacts => "Fun Facts"@,
        TriviaSubject::Riddles => "Riddles"@,
    }
}

pub open spec fn loading_status_spec(s: TriviaSubject) -> Seq<char> {
    match s {
        TriviaSubject::Bible => "Loading Bible questions"@,
        TriviaSubject::FunFacts => "Loading Fun Facts"@,
        TriviaSubject::Riddles => "Loading Riddles"@,
    }
}

impl TriviaRequest {
    pub(crate) fn for_bible() -> (r: Self)
        ensures
            r.subject == TriviaSubject::Bible,
    {
        TriviaRequest { subject: TriviaSubject::Bible }
    }

    pub fn menu_title(self) -> (r: String)
        ensures
            r@ == menu_title_spec(self.subject),
    {
        match self.subject {
            TriviaSubject::Bible => String::from_str("Bible"),
            TriviaSubject::FunFacts => String::from_str("Fun Facts"),
            TriviaSubject::Riddles => String::from_str("Riddles"),
        }
    }

    pub fn loading_status(self) -> (r: String)
        ensures
            r@ == loading_status_spec(self.subject),
    {
        match self.subject {
            TriviaSubject::Bible => String::from_str("Loading Bible questions"),
            TriviaSubject::FunFacts => String::from_str("Loading Fun Facts"),
            TriviaSubject::Riddles => String::from_str("Loading Riddles"),
        }
    }
}

/// A question and answer to be explained further.
#[derive(Debug)]
pub struct ExplanationRequest {
    pub question: String,
    pub answer: String,
}

/// The model's reply to an explanation request: an object with the string
/// field `explanation`.
#[derive(Debug)]
pub struct ExplanationReply {
    pub explanation: String,
}

#[derive(Debug, Clone, Copy, PartialEq, Eq, Structural)]
pub enum AnswerAction {
    ExplainFurther,
    Continue,
}

pub open spec fn answer_action_label(a: AnswerAction) -> Seq<char> {
    match a {
        AnswerAction::ExplainFurther => "Explain further"@,
        AnswerAction::Continue => "Continue"@,
    }
}

pub open spec fn other_action(a: AnswerAction) -> AnswerAction {
    match a {
        AnswerAction::ExplainFurther => AnswerAction::Continue,
        AnswerAction::Continue => AnswerAction::ExplainFurther,
    }
}

impl AnswerAction {
    pub fn label(self) -> (r: &'static str)
        ensures
            r@ == answer_action_label(self),
    {
        match self {
            AnswerAction::ExplainFurther => "Explain further",
            AnswerAction::Continue => "Continue",
        }
    }

    pub fn other(self) -> (r: Self)
        ensures
            r == other_action(self),
    {
        match self {
            AnswerAction::ExplainFurther => AnswerAction::Continue,
            AnswerAction::Continue => AnswerAction::ExplainFurther,
        }
    }
}

/// The outside work that a state is waiting for.
#[derive(Debug)]
pub enum PendingBackgroundJob {
    Trivia(TriviaRequest),
    Explanation(ExplanationRequest),
}

/// A question that has just been put on screen, to be recorded as seen.
#[derive(Debug)]
pub struct ShownQuestion {
    pub request: TriviaRequest,
    pub question: String,
}

/// Number of questions in a round of the subject.
pub open spec fn round_size_spec(s: TriviaSubject) -> nat {
    match s {
        TriviaSubject::Bible | TriviaSubject::FunFacts => 20,
        TriviaSubject::Riddles => 10,
    }
}

pub fn round_size(subject: TriviaSubject) -> (n: usize)
    ensures
        n == round_size_spec(subject),
{
    match subject {
        TriviaSubject::Bible | TriviaSubject::FunFacts => 20,
        TriviaSubject::Riddles => 10,
    }
}

/// Whether the questions of the subject are deduplicated by the model.
pub open spec fn ai_dedup_spec(s: TriviaSubject) -> bool {
    true
}

pub fn should_ai_dedup(subject: TriviaSubject) -> (b: bool)
    ensures
        b == ai_dedup_spec(subject),
{
    match subject {
        TriviaSubject::Bible | TriviaSubject::FunFacts | TriviaSubject::Riddles => true,
    }
}

/// Whether every round of the subject asks the model for a new batch.
pub open spec fn new_batch_spec(s: TriviaSubject) -> bool {
    s == TriviaSubject::Riddles
}

pub fn should_generate_new_batch(subject: TriviaSubject) -> (b: bool)
    ensures
        b == new_batch_spec(subject),
{
    match subject {
        TriviaSubject::Riddles => true,
        _ => false,
    }
}

} // verus!
