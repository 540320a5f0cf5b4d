use kiosk::trivia::cache::{
    all_cache_questions_seen, cached_from_legacy, ensure_non_stale_cache,
    filter_cached_items_by_question_list, filter_trivia_items_by_question_list,
    mark_question_seen_on_display, parse_seen_list, pick_random_items, reconcile_seen_with_cache,
    seen_list_text,
    saturating_sub_i64, select_round_from_cache, unique_question_items_from_cache,
    unseen_items_from_cache, CachedTriviaItem, CACHE_TTL_SECS,
};
use kiosk::trivia::model::TriviaItem;

fn c(q: &str, t: i64) -> CachedTriviaItem {
    CachedTriviaItem { question: q.to_string(), answer: format!("{}!", q), added_at_epoch_secs: t }
}

fn item(q: &str) -> TriviaItem {
    TriviaItem { question: q.to_string(), answer: format!("{}!", q), explanation: None }
}

fn s(v: &[&str]) -> Vec<String> {
    v.iter().map(|x| x.to_string()).collect()
}

fn questions(items: &[TriviaItem]) -> Vec<String> {
    items.iter().map(|i| i.question.clone()).collect()
}

#[test]
fn unique_keeps_first_of_each_question() {
    let cache = vec![c("a", 1), c("b", 2), c("a", 3)];
    let u = unique_question_items_from_cache(&cache);
    assert_eq!(questions(&u), s(&["a", "b"]));
    assert_eq!(u[0].answer, "a!");
    assert!(u[0].explanation.is_none());
}

#[test]
fn unseen_skips_seen_and_repeats() {
    let cache = vec![c("a", 1), c("b", 2), c("c", 3), c("b", 4)];
    let u = unseen_items_from_cache(&cache, &s(&["a"]));
    assert_eq!(questions(&u), s(&["b", "c"]));
    assert!(all_cache_questions_seen(&cache, &s(&["a", "b", "c"])));
    assert!(!all_cache_questions_seen(&cache, &s(&["a", "b"])));
    assert!(!all_cache_questions_seen(&[], &s(&["a"])));
}

#[test]
fn pick_is_a_random_subset() {
    let items = vec![item("a"), item("b"), item("c")];
    let mut p = questions(&pick_random_items(&items, 2));
    assert_eq!(p.len(), 2);
    p.sort();
    p.dedup();
    assert_eq!(p.len(), 2);
    assert!(p.iter().all(|q| ["a", "b", "c"].contains(&q.as_str())));
    let mut all = questions(&pick_random_items(&items, 10));
    all.sort();
    assert_eq!(all, s(&["a", "b", "c"]));
}

#[test]
fn shuffling_changes_the_order_sometimes() {
    let items: Vec<TriviaItem> = (0..8).map(|i| item(&i.to_string())).collect();
    let original = questions(&items);
    let changed = (0..20).any(|_| questions(&pick_random_items(&items, 8)) != original);
    assert!(changed);
}

#[test]
fn round_selection_cases() {
    let cache = vec![c("a", 0), c("b", 0), c("c", 0), c("d", 0)];
    // Enough unseen: a random pick of them.
    let r = questions(&select_round_from_cache(&cache, &s(&["a"]), 2));
    assert_eq!(r.len(), 2);
    assert!(!r.contains(&"a".to_string()));
    // Some unseen, too few: all of them, in cache order.
    let r = questions(&select_round_from_cache(&cache, &s(&["a", "c"]), 3));
    assert_eq!(r, s(&["b", "d"]));
    // Everything seen: a pick of the whole cache.
    let mut r = questions(&select_round_from_cache(&cache, &s(&["a", "b", "c", "d"]), 10));
    r.sort();
    assert_eq!(r, s(&["a", "b", "c", "d"]));
    // Empty cache: empty round.
    assert!(select_round_from_cache(&[], &[], 3).is_empty());
}

#[test]
fn reconcile_keeps_seen_in_cache() {
    let cache = vec![c("a", 0), c("b", 0)];
    let r = reconcile_seen_with_cache(&s(&["x", "b", "a", "b"]), &cache);
    assert_eq!(r, s(&["b", "a", "b"]));
    assert_eq!(reconcile_seen_with_cache(&r, &cache), r);
}

#[test]
fn filters_keep_allowed_first_occurrences() {
    let items = vec![item("a"), item("b"), item("a"), item("c")];
    let f = filter_trivia_items_by_question_list(&items, &s(&["a", "c", "z"]));
    assert_eq!(questions(&f), s(&["a", "c"]));
    let cached = vec![c("a", 1), c("b", 2), c("a", 3)];
    let f = filter_cached_items_by_question_list(&cached, &s(&["a"]));
    assert_eq!(f.len(), 1);
    assert_eq!(f[0].added_at_epoch_secs, 1);
}

#[test]
fn pruning_by_age() {
    let now = 1_000_000;
    let cache = vec![c("old", now - CACHE_TTL_SECS - 1), c("edge", now - CACHE_TTL_SECS), c("new", now)];
    let p = ensure_non_stale_cache(&cache, now);
    let q: Vec<String> = p.iter().map(|x| x.question.clone()).collect();
    assert_eq!(q, s(&["edge", "new"]));
    assert_eq!(saturating_sub_i64(i64::MIN, 1), i64::MIN);
    assert_eq!(saturating_sub_i64(i64::MAX, -1), i64::MAX);
    assert_eq!(saturating_sub_i64(5, 7), -2);
    // Far in the future counts as fresh (negative age).
    assert_eq!(ensure_non_stale_cache(&[c("future", i64::MAX)], 0).len(), 1);
}

#[test]
fn marking_seen() {
    let seen = s(&["a"]);
    assert_eq!(mark_question_seen_on_display(&seen, "b"), Some(s(&["a", "b"])));
    assert_eq!(mark_question_seen_on_display(&seen, "a"), None);
    assert_eq!(mark_question_seen_on_display(&seen, "  \t"), None);
    let once = mark_question_seen_on_display(&seen, "b").unwrap();
    assert_eq!(mark_question_seen_on_display(&once, "b"), None);
}

#[test]
fn legacy_items_are_stamped() {
    let l = cached_from_legacy(&[item("a"), item("b")], 42);
    assert_eq!(l.len(), 2);
    assert_eq!(l[1].question, "b");
    assert_eq!(l[1].answer, "b!");
    assert_eq!(l[1].added_at_epoch_secs, 42);
}

#[test]
fn seen_file_text() {
    assert_eq!(parse_seen_list("[\"a\", \"b\"]"), s(&["a", "b"]));
    assert_eq!(parse_seen_list("not json"), Vec::<String>::new());
    assert_eq!(parse_seen_list("{\"a\": 1}"), Vec::<String>::new());
    assert_eq!(seen_list_text(&s(&["a", "q\"x"])), "[\n  \"a\",\n  \"q\\\"x\"\n]");
    assert_eq!(seen_list_text(&[]), "[]");
    assert_eq!(parse_seen_list(&seen_list_text(&s(&["a", "b\n"]))), s(&["a", "b\n"]));
}
