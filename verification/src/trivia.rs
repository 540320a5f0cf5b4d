//! The trivia game: a menu of subjects, rounds of timed questions, answers
//! with optional explanations, and the cache of previously generated questions.
pub mod cache;
pub mod clock;
pub mod fetch;
pub mod model;
pub mod prompts;
pub mod scope;
pub mod state;
pub mod input;
pub mod json;
