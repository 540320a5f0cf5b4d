use kiosk::trivia::cache::CachedTriviaItem;
use kiosk::trivia::fetch::{
    accept_explanation, cache_file_name, check_generated_count, complete_round,
    generation_prompt, refresh_cache, round_from_cache, seen_file_name,
    explanation_from_reply, first_reply_text, items_from_reply, settle_cache_dedup,
    settle_new_item_dedup, wants_cache_dedup, CacheDedup, ScopeAssets,
};
use kiosk::trivia::json::{json_candidates, no_json_message, parse_gemini_string_array};
use kiosk::trivia::model::{
    round_size, should_ai_dedup, should_generate_new_batch, ExplanationReply, TriviaItem, TriviaRequest,
    TriviaSubject,
};

fn c(q: &str, t: i64) -> CachedTriviaItem {
    CachedTriviaItem { question: q.to_string(), answer: format!("{}!", q), added_at_epoch_secs: t }
}

fn item(q: &str) -> TriviaItem {
    TriviaItem { question: q.to_string(), answer: format!("{}!", q), explanation: None }
}

fn s(v: &[&str]) -> Vec<String> {
    v.iter().map(|x| x.to_string()).collect()
}

const BIBLE: TriviaRequest = TriviaRequest { subject: TriviaSubject::Bible };
const RIDDLES: TriviaRequest = TriviaRequest { subject: TriviaSubject::Riddles };

#[test]
fn subject_settings() {
    assert_eq!(round_size(TriviaSubject::Bible), 20);
    assert_eq!(round_size(TriviaSubject::FunFacts), 20);
    assert_eq!(round_size(TriviaSubject::Riddles), 10);
    assert!(should_ai_dedup(TriviaSubject::Riddles));
    assert!(should_generate_new_batch(TriviaSubject::Riddles));
    assert!(!should_generate_new_batch(TriviaSubject::Bible));
    assert_eq!(cache_file_name(BIBLE), "bible.json");
    assert_eq!(cache_file_name(TriviaRequest { subject: TriviaSubject::FunFacts }), "fun-facts.json");
    assert_eq!(seen_file_name(RIDDLES), "riddles-seen.json");
}

#[test]
fn refresh_drops_stale_and_reconciles() {
    let now = 2_000_000;
    let cache = vec![c("old", 0), c("new", now)];
    let r = refresh_cache(&cache, &s(&["old", "new"]), true, now);
    assert!(r.cache_changed);
    assert_eq!(r.cached.len(), 1);
    assert_eq!(r.seen, s(&["new"]));
    assert!(r.seen_changed);
    let r = refresh_cache(&cache, &s(&["old"]), false, now);
    assert_eq!(r.seen, s(&["old"]));
    assert!(!r.seen_changed);
    let r = refresh_cache(&[c("new", now)], &s(&["new"]), true, now);
    assert!(!r.cache_changed);
    assert!(!r.seen_changed);
    let today = 1_700_000_000;
    let r = refresh_cache(&[c("today", today), c("ancient", 0)], &[], true, today);
    assert_eq!(r.cached.len(), 1);
}

#[test]
fn cache_serves_bible_but_not_riddles() {
    let cache: Vec<CachedTriviaItem> = (0..25).map(|i| c(&format!("q{}", i), 0)).collect();
    let r = round_from_cache(BIBLE, &cache, &[]).unwrap();
    assert_eq!(r.len(), 20);
    assert!(round_from_cache(RIDDLES, &cache, &[]).is_none());
    let seen: Vec<String> = (0..10).map(|i| format!("q{}", i)).collect();
    assert!(round_from_cache(BIBLE, &cache, &seen).is_none());
}

#[test]
fn dedup_batches() {
    let cache: Vec<CachedTriviaItem> = (0..1200).map(|i| c(&format!("q{}", i), 0)).collect();
    let mut d = CacheDedup::new(cache);
    let (banned, cands) = d.next_batch().unwrap();
    assert!(banned.is_empty());
    assert_eq!(cands.len(), 500);
    assert_eq!(cands[0], "q0");
    d.accept_batch(&s(&["q1", "q3", "q1", "zzz"]));
    let (banned, cands) = d.next_batch().unwrap();
    assert_eq!(banned, s(&["q1", "q3"]));
    assert_eq!(cands.len(), 500);
    assert_eq!(cands[0], "q500");
    d.accept_batch(&s(&["q500"]));
    let (_, cands) = d.next_batch().unwrap();
    assert_eq!(cands.len(), 200);
    d.accept_batch(&[]);
    assert!(d.next_batch().is_none());
    let kept: Vec<String> = d.result().iter().map(|x| x.question.clone()).collect();
    assert_eq!(kept, s(&["q1", "q3", "q500"]));
    let single = CacheDedup::new(vec![c("only", 0)]);
    assert!(single.next_batch().is_none());
    assert_eq!(single.result().len(), 1);
}

#[test]
fn too_few_generated() {
    assert!(check_generated_count(BIBLE, 20).is_ok());
    assert_eq!(
        check_generated_count(BIBLE, 19).unwrap_err(),
        "Model returned fewer than 20 trivia items. Please retry."
    );
    assert_eq!(
        check_generated_count(RIDDLES, 0).unwrap_err(),
        "Model returned fewer than 10 trivia items. Please retry."
    );
}

#[test]
fn completing_a_round() {
    let cache = vec![c("old", 5)];
    let fresh = vec![item("old"), item(" "), item("new"), item("new"), item("two")];
    let (grown, round) = complete_round(RIDDLES, cache, &s(&["old"]), &fresh, 99).unwrap();
    let q: Vec<String> = grown.iter().map(|x| x.question.clone()).collect();
    assert_eq!(q, s(&["old", "new", "two"]));
    assert_eq!(grown[1].added_at_epoch_secs, 99);
    let rq: Vec<String> = round.iter().map(|x| x.question.clone()).collect();
    assert_eq!(rq, s(&["new", "two"]));
    let err = complete_round(BIBLE, vec![c("a", 0)], &[], &[item("a"), item("")], 1);
    assert_eq!(
        err.unwrap_err(),
        "All generated questions were duplicates. Press Enter to request another batch."
    );
    let (grown, _) = complete_round(BIBLE, vec![], &[], &[item("x")], 1_700_000_000).unwrap();
    assert_eq!(grown[0].added_at_epoch_secs, 1_700_000_000);
}

#[test]
fn explanation_must_not_be_blank() {
    assert_eq!(accept_explanation("  \n".to_string()).unwrap_err(), "Model returned an empty explanation.");
    assert_eq!(accept_explanation("Yes.".to_string()).unwrap(), "Yes.");
}

#[test]
fn json_in_replies() {
    assert_eq!(json_candidates("  [1]  "), s(&["[1]", "[1]"]));
    assert_eq!(json_candidates("x {\"a\": [1]} y"), s(&["x {\"a\": [1]} y", "[1]", "{\"a\": [1]}"]));
    assert_eq!(json_candidates("] no ["), s(&["] no ["]));
    assert_eq!(parse_gemini_string_array("Sure! [\"a\", \"b\"] done").unwrap(), s(&["a", "b"]));
    assert_eq!(parse_gemini_string_array(" [\"x\"] ").unwrap(), s(&["x"]));
    assert_eq!(
        parse_gemini_string_array("nothing here").unwrap_err(),
        "No valid JSON found in response: nothing here"
    );
    assert_eq!(no_json_message("t"), "No valid JSON found in response: t");
}

fn assets() -> ScopeAssets {
    let bible = "Genesis|50\nExodus | 40\n\nLeviticus|27\nNumbers|36\nDeuteronomy|34\n";
    ScopeAssets {
        bible_chapter_counts: bible.to_string(),
        dictionary_words: "alpha\n beta \n\n".to_string(),
        riddle_topics: "[\"time\", \" \", \"shadows\"]".to_string(),
    }
}

#[test]
fn generation_prompts() {
    let cache = vec![c("Who?", 0)];
    let p = generation_prompt(BIBLE, &cache, &assets()).unwrap();
    assert!(p.starts_with("MOST IMPORTANT REQUIREMENT: Return valid JSON only.\n"));
    assert!(p.contains("Books focus (5 random books): "));
    assert!(!p.contains("__BOOKS__"));
    assert!(!p.contains("__CHAPTERS__"));
    assert!(p.ends_with("Previously asked items:\n- Who?\n"));
    let p = generation_prompt(TriviaRequest { subject: TriviaSubject::FunFacts }, &[], &assets()).unwrap();
    assert!(p.contains("alpha") && p.contains("beta"));
    assert!(!p.contains("Previously asked items"));
    let p = generation_prompt(RIDDLES, &[], &assets()).unwrap();
    assert!(p.contains("- time") && p.contains("- shadows"));
    assert!(!p.contains("__TOPICS__"));
    let bad = ScopeAssets {
        bible_chapter_counts: "Genesis|1\n".to_string(),
        dictionary_words: " \n".to_string(),
        riddle_topics: "{".to_string(),
    };
    assert_eq!(
        generation_prompt(BIBLE, &[], &bad).unwrap_err(),
        "Bible chapter-count asset has fewer than 5 books"
    );
    assert_eq!(
        generation_prompt(TriviaRequest { subject: TriviaSubject::FunFacts }, &[], &bad).unwrap_err(),
        "dictionary-words.txt is empty"
    );
    assert!(generation_prompt(RIDDLES, &[], &bad)
        .unwrap_err()
        .starts_with("Failed to parse riddle-topics.json: "));
}

#[test]
fn settling_the_model_dedup() {
    assert!(!wants_cache_dedup(BIBLE, &[]));
    assert!(wants_cache_dedup(RIDDLES, &[c("a", 1)]));
    let (kept, changed) = settle_cache_dedup(vec![c("a", 1), c("b", 2)], Ok(vec![c("a", 1)]));
    assert_eq!(kept.len(), 1);
    assert!(changed);
    let (kept, changed) = settle_cache_dedup(vec![c("a", 1)], Ok(vec![c("b", 1)]));
    assert_eq!(kept[0].question, "b");
    assert!(!changed);
    let (kept, changed) = settle_cache_dedup(vec![c("a", 1), c("b", 2)], Err("offline".to_string()));
    assert_eq!(kept.len(), 2);
    assert!(!changed);
    let fresh = settle_new_item_dedup(vec![item("x"), item("y")], Ok(vec![item("y")]));
    assert_eq!(fresh.len(), 1);
    assert_eq!(fresh[0].question, "y");
    let fresh = settle_new_item_dedup(vec![item("x"), item("y")], Err("offline".to_string()));
    assert_eq!(fresh.len(), 2);
}

fn reply(e: &str) -> Option<ExplanationReply> {
    Some(ExplanationReply { explanation: e.to_string() })
}

#[test]
fn reading_the_model_replies() {
    assert_eq!(explanation_from_reply("x", vec![None, reply("Because."), reply("later")]).unwrap(), "Because.");
    assert_eq!(
        explanation_from_reply("x", vec![reply("  ")]).unwrap_err(),
        "Model returned an empty explanation."
    );
    assert_eq!(
        explanation_from_reply("nothing", vec![None, None]).unwrap_err(),
        "No valid JSON found in response: nothing"
    );
    let items = items_from_reply("t", vec![None, Some(vec![item("a"), item("b")]), Some(vec![])]).unwrap();
    assert_eq!(items.len(), 2);
    assert_eq!(items[1].question, "b");
    assert_eq!(items_from_reply("t", vec![]).unwrap_err(), "No valid JSON found in response: t");
    assert_eq!(
        first_reply_text(vec![]).unwrap_err(),
        "No candidates in response (Check safety filters/billing)"
    );
    assert_eq!(first_reply_text(vec![vec![], s(&["x"])]).unwrap_err(), "No text in response part");
    assert_eq!(first_reply_text(vec![s(&["p1", "p2"]), s(&["q"])]).unwrap(), "p1");
}
