//! The cache of generated questions and the list of questions already seen:
//! which questions a round draws, which ones are kept, which ones expire.
use vstd::prelude::*;
use crate::random::{is_pick, shuffle_truncate};
use crate::text::{trim, trim_str, views};
use crate::trivia::json::{
    json_string_array, parse_json_string_array, pretty_json_strings, pretty_string_array,
};
use crate::trivia::model::{items_view, ItemView, TriviaItem};

verus! {

/// Seconds that a cached question stays usable (one week).
pub const CACHE_TTL_SECS: i64 = 604800;

/// A generated question as kept in the cache file, with the time it was added.
#[derive(Debug)]
pub struct CachedTriviaItem {
    pub question: String,
    pub answer: String,
    pub added_at_epoch_secs: i64,
}

#[verifier::ext_equal]
pub struct CachedView {
    pub question: Seq<char>,
    pub answer: Seq<char>,
    pub added_at_epoch_secs: int,
}

impl View for CachedTriviaItem {
    type V = CachedView;

    open spec fn view(&self) -> CachedView {
        CachedView {
            question: self.question@,
            answer: self.answer@,
            added_at_epoch_secs: self.added_at_epoch_secs as int,
        }
    }
}

impl Clone for CachedTriviaItem {
    fn clone(&self) -> (r: Self)
        ensures
            r == *self,
    {
        CachedTriviaItem {
            question: self.question.clone(),
            answer: self.answer.clone(),
            added_at_epoch_secs: self.added_at_epoch_secs,
        }
    }
}

pub open spec fn cached_view(c: Seq<CachedTriviaItem>) -> Seq<CachedView> {
    c.map_values(|x: CachedTriviaItem| x@)
}

/// Whether some item of `items` asks `q`.
pub open spec fn has_question(items: Seq<ItemView>, q: Seq<char>) -> bool {
    exists|i: int| 0 <= i < items.len() && #[trigger] items[i].question == q
}

/// Whether some cached item asks `q`.
pub open spec fn cache_has_question(c: Seq<CachedView>, q: Seq<char>) -> bool {
    exists|i: int| 0 <= i < c.len() && #[trigger] c[i].question == q
}

/// A cached question as a playable item, with no explanation yet.
pub open spec fn fresh_item(c: CachedView) -> ItemView {
    ItemView { question: c.question, answer: c.answer, explanation: None }
}

/// The cached questions not in `seen`, each question once (its first
/// occurrence), in cache order.
pub open spec fn unseen_spec(c: Seq<CachedView>, seen: Seq<Seq<char>>) -> Seq<ItemView>
    decreases c.len(),
{
    if c.len() == 0 {
        Seq::empty()
    } else {
        let prev = unseen_spec(c.drop_last(), seen);
        let q = c.last().question;
        if seen.contains(q) || has_question(prev, q) {
            prev
        } else {
            prev.push(fresh_item(c.last()))
        }
    }
}

/// The cached questions, each question once (its first occurrence), in cache order.
pub open spec fn unique_spec(c: Seq<CachedView>) -> Seq<ItemView> {
    unseen_spec(c, Seq::empty())
}

/// The questions of `seen` that the cache still holds, in order.
pub open spec fn reconcile_spec(seen: Seq<Seq<char>>, c: Seq<CachedView>) -> Seq<Seq<char>>
    decreases seen.len(),
{
    if seen.len() == 0 {
        Seq::empty()
    } else {
        let prev = reconcile_spec(seen.drop_last(), c);
        if cache_has_question(c, seen.last()) {
            prev.push(seen.last())
        } else {
            prev
        }
    }
}

/// The items whose question is in `questions`, each question once (its first
/// occurrence), in order.
pub open spec fn filter_items_spec(items: Seq<ItemView>, questions: Seq<Seq<char>>) -> Seq<
    ItemView,
>
    decreases items.len(),
{
    if items.len() == 0 {
        Seq::empty()
    } else {
        let prev = filter_items_spec(items.drop_last(), questions);
        let q = items.last().question;
        if !questions.contains(q) || has_question(prev, q) {
            prev
        } else {
            prev.push(items.last())
        }
    }
}

/// The cached items whose question is in `questions`, each question once
/// (its first occurrence), in order.
pub open spec fn filter_cached_spec(c: Seq<CachedView>, questions: Seq<Seq<char>>) -> Seq<
    CachedView,
>
    decreases c.len(),
{
    if c.len() == 0 {
        Seq::empty()
    } else {
        let prev = filter_cached_spec(c.drop_last(), questions);
        let q = c.last().question;
        if !questions.contains(q) || cache_has_question(prev, q) {
            prev
        } else {
            prev.push(c.last())
        }
    }
}

/// `a.saturating_sub(b)` for `i64`.
pub open spec fn sat_sub_i64(a: int, b: int) -> int {
    if a - b < i64::MIN {
        i64::MIN as int
    } else if a - b > i64::MAX {
        i64::MAX as int
    } else {
        a - b
    }
}

/// Whether an item added at `added` is still usable at time `now`.
pub open spec fn is_fresh(added: int, now: int) -> bool {
    sat_sub_i64(now, added) <= CACHE_TTL_SECS
}

/// The cached items still usable at time `now`, in order.
pub open spec fn prune_spec(c: Seq<CachedView>, now: int) -> Seq<CachedView>
    decreases c.len(),
{
    if c.len() == 0 {
        Seq::empty()
    } else {
        let prev = prune_spec(c.drop_last(), now);
        if is_fresh(c.last().added_at_epoch_secs, now) {
            prev.push(c.last())
        } else {
            prev
        }
    }
}

/// Whether the cache holds a question and each of its questions is in `seen`.
pub open spec fn all_seen_spec(c: Seq<CachedView>, seen: Seq<Seq<char>>) -> bool {
    c.len() > 0 && forall|i: int| 0 <= i < c.len() ==> seen.contains(#[trigger] c[i].question)
}

/// What recording `question` as seen does to the list: `None` where it stays
/// as it is (a blank question, or one already in it).
pub open spec fn mark_seen_spec(seen: Seq<Seq<char>>, question: Seq<char>) -> Option<
    Seq<Seq<char>>,
> {
    if trim(question).len() == 0 || seen.contains(question) {
        None
    } else {
        Some(seen.push(question))
    }
}

pub fn contains_string(list: &[String], s: &String) -> (b: bool)
    ensures
        b == views(list@).contains(s@),
{
    let mut i: usize = 0;
    while i < list.len()
        invariant
            i <= list@.len(),
            forall|j: int| 0 <= j < i ==> list@[j]@ != s@,
        decreases list@.len() - i,
    {
        if list[i] == *s {
            assert(views(list@)[i as int] == s@);
            return true;
        }
        i = i + 1;
    }
    assert forall|j: int| 0 <= j < views(list@).len() implies views(list@)[j] != s@ by {
        assert(list@[j]@ != s@);
    }
    false
}

fn items_have_question(items: &Vec<TriviaItem>, q: &String) -> (b: bool)
    ensures
        b == has_question(items_view(items@), q@),
{
    let mut i: usize = 0;
    while i < items.len()
        invariant
            i <= items@.len(),
            forall|j: int| 0 <= j < i ==> items@[j].question@ != q@,
        decreases items@.len() - i,
    {
        if items[i].question == *q {
            assert(items_view(items@)[i as int].question == q@);
            return true;
        }
        i = i + 1;
    }
    assert forall|j: int| 0 <= j < items_view(items@).len() implies items_view(items@)[j].question
        != q@ by {
        assert(items@[j].question@ != q@);
    }
    false
}

fn cached_have_question(items: &[CachedTriviaItem], q: &String) -> (b: bool)
    ensures
        b == cache_has_question(cached_view(items@), q@),
{
    let mut i: usize = 0;
    while i < items.len()
        invariant
            i <= items@.len(),
            forall|j: int| 0 <= j < i ==> items@[j].question@ != q@,
        decreases items@.len() - i,
    {
        if items[i].question == *q {
            assert(cached_view(items@)[i as int].question == q@);
            return true;
        }
        i = i + 1;
    }
    assert forall|j: int| 0 <= j < cached_view(items@).len() implies cached_view(items@)[j].question
        != q@ by {
        assert(items@[j].question@ != q@);
    }
    false
}

/// The cached questions not yet seen, each question once, in cache order.
pub fn unseen_items_from_cache(cached: &[CachedTriviaItem], seen_questions: &[String]) -> (r: Vec<
    TriviaItem,
>)
    ensures
        items_view(r@) == unseen_spec(cached_view(cached@), views(seen_questions@)),
{
    let ghost c = cached_view(cached@);
    let ghost sv = views(seen_questions@);
    let mut out: Vec<TriviaItem> = Vec::new();
    let mut i: usize = 0;
    assert(c.take(0) =~= Seq::<CachedView>::empty());
    assert(items_view(out@) =~= Seq::<ItemView>::empty());
    while i < cached.len()
        invariant
            i <= cached@.len(),
            c == cached_view(cached@),
            sv == views(seen_questions@),
            items_view(out@) == unseen_spec(c.take(i as int), sv),
        decreases cached@.len() - i,
    {
        proof {
            assert(c.take(i + 1).drop_last() =~= c.take(i as int));
            assert(c.take(i + 1).last() == cached@[i as int]@);
        }
        let item = &cached[i];
        let in_seen = contains_string(seen_questions, &item.question);
        let emitted = items_have_question(&out, &item.question);
        if !in_seen && !emitted {
            let ghost before = out@;
            out.push(
                TriviaItem {
                    question: item.question.clone(),
                    answer: item.answer.clone(),
                    explanation: None,
                },
            );
            assert(items_view(out@) =~= items_view(before).push(fresh_item(cached@[i as int]@)));
        }
        i = i + 1;
    }
    assert(c.take(cached@.len() as int) =~= c);
    out
}

/// The cached questions, each question once, in cache order.
pub fn unique_question_items_from_cache(cached: &[CachedTriviaItem]) -> (r: Vec<TriviaItem>)
    ensures
        items_view(r@) == unique_spec(cached_view(cached@)),
{
    let none: Vec<String> = Vec::new();
    assert(views(none@) =~= Seq::<Seq<char>>::empty());
    unseen_items_from_cache(cached, none.as_slice())
}

/// Up to `count` of the items, chosen at random.
pub fn pick_random_items(items: &[TriviaItem], count: usize) -> (r: Vec<TriviaItem>)
    ensures
        is_pick(r@, items@, count as nat),
{
    let mut picked: Vec<TriviaItem> = Vec::new();
    let mut i: usize = 0;
    while i < items.len()
        invariant
            i <= items@.len(),
            picked@ == items@.take(i as int),
        decreases items@.len() - i,
    {
        picked.push(items[i].clone());
        assert(picked@ =~= items@.take(i + 1));
        i = i + 1;
    }
    assert(picked@ =~= items@);
    shuffle_truncate(&mut picked, count);
    picked
}


/// What a round drawn from the cache may be: `round_size` unseen questions
/// at random where there are that many; where none is unseen, up to
/// `round_size` of all cached questions at random; otherwise every unseen one.
pub open spec fn select_round_ok(
    c: Seq<CachedView>,
    seen: Seq<Seq<char>>,
    round_size: nat,
    r: Seq<TriviaItem>,
) -> bool {
    let u = unseen_spec(c, seen);
    if u.len() >= round_size {
        exists|from: Seq<TriviaItem>| items_view(from) == u && #[trigger] is_pick(r, from, round_size)
    } else if u.len() == 0 {
        exists|from: Seq<TriviaItem>|
            items_view(from) == unique_spec(c) && #[trigger] is_pick(r, from, round_size)
    } else {
        items_view(r) == u
    }
}

/// Whether the cache holds a question and every cached question was seen.
pub fn all_cache_questions_seen(cached: &[CachedTriviaItem], seen_questions: &[String]) -> (b:
    bool)
    ensures
        b == all_seen_spec(cached_view(cached@), views(seen_questions@)),
{
    if cached.len() == 0 {
        return false;
    }
    let mut i: usize = 0;
    while i < cached.len()
        invariant
            i <= cached@.len(),
            forall|j: int|
                0 <= j < i ==> views(seen_questions@).contains(
                    #[trigger] cached_view(cached@)[j].question,
                ),
        decreases cached@.len() - i,
    {
        if !contains_string(seen_questions, &cached[i].question) {
            assert(!views(seen_questions@).contains(cached_view(cached@)[i as int].question));
            return false;
        }
        i = i + 1;
    }
    true
}

/// The items of a round drawn from the cache: `round_size` unseen questions
/// at random where there are that many; where none is unseen, up to
/// `round_size` of all cached questions at random; otherwise every unseen one.
pub fn select_round_from_cache(
    cached: &[CachedTriviaItem],
    seen_questions: &[String],
    round_size: usize,
) -> (r: Vec<TriviaItem>)
    ensures
        select_round_ok(cached_view(cached@), views(seen_questions@), round_size as nat, r@),
{
    let unseen = unseen_items_from_cache(cached, seen_questions);
    if unseen.len() >= round_size {
        let r = pick_random_items(unseen.as_slice(), round_size);
        assert(items_view(unseen@).len() == unseen@.len());
        return r;
    }
    if all_cache_questions_seen(cached, seen_questions) {
        let all = unique_question_items_from_cache(cached);
        let r = pick_random_items(all.as_slice(), round_size);
        proof {
            lemma_all_seen_none_unseen(cached_view(cached@), views(seen_questions@));
        }
        return r;
    }
    if unseen.len() == 0 {
        let all = unique_question_items_from_cache(cached);
        return pick_random_items(all.as_slice(), round_size);
    }
    assert(items_view(unseen@).len() == unseen@.len());
    unseen
}

/// Every question of `unseen_spec` is in the cache and not in `seen`.
pub proof fn lemma_unseen_members(c: Seq<CachedView>, seen: Seq<Seq<char>>)
    ensures
        forall|i: int|
            0 <= i < unseen_spec(c, seen).len() ==> !seen.contains(
                #[trigger] unseen_spec(c, seen)[i].question,
            ) && cache_has_question(c, unseen_spec(c, seen)[i].question),
    decreases c.len(),
{
    if c.len() > 0 {
        lemma_unseen_members(c.drop_last(), seen);
        let prev = unseen_spec(c.drop_last(), seen);
        assert forall|i: int| 0 <= i < unseen_spec(c, seen).len() implies !seen.contains(
            #[trigger] unseen_spec(c, seen)[i].question,
        ) && cache_has_question(c, unseen_spec(c, seen)[i].question) by {
            if i < prev.len() {
                let q = prev[i].question;
                assert(cache_has_question(c.drop_last(), q));
                let k = choose|k: int| 0 <= k < c.drop_last().len() && c.drop_last()[k].question == q;
                assert(c[k].question == q);
            } else {
                assert(c[c.len() - 1].question == c.last().question);
            }
        }
    }
}

/// Where the cache is seen in full, no question is unseen.
proof fn lemma_all_seen_none_unseen(c: Seq<CachedView>, seen: Seq<Seq<char>>)
    requires
        all_seen_spec(c, seen),
    ensures
        unseen_spec(c, seen).len() == 0,
{
    lemma_unseen_members(c, seen);
    if unseen_spec(c, seen).len() > 0 {
        let q = unseen_spec(c, seen)[0].question;
        let k = choose|k: int| 0 <= k < c.len() && c[k].question == q;
        assert(seen.contains(c[k].question));
    }
}

/// The seen questions that the cache still holds, in order.
pub fn reconcile_seen_with_cache(seen: &[String], cached: &[CachedTriviaItem]) -> (r: Vec<String>)
    ensures
        views(r@) == reconcile_spec(views(seen@), cached_view(cached@)),
{
    let ghost sv = views(seen@);
    let mut out: Vec<String> = Vec::new();
    let mut i: usize = 0;
    assert(sv.take(0) =~= Seq::<Seq<char>>::empty());
    assert(views(out@) =~= Seq::<Seq<char>>::empty());
    while i < seen.len()
        invariant
            i <= seen@.len(),
            sv == views(seen@),
            views(out@) == reconcile_spec(sv.take(i as int), cached_view(cached@)),
        decreases seen@.len() - i,
    {
        proof {
            assert(sv.take(i + 1).drop_last() =~= sv.take(i as int));
            assert(sv.take(i + 1).last() == seen@[i as int]@);
        }
        if cached_have_question(cached, &seen[i]) {
            let ghost before = out@;
            out.push(seen[i].clone());
            assert(views(out@) =~= views(before).push(seen@[i as int]@));
        }
        i = i + 1;
    }
    assert(sv.take(seen@.len() as int) =~= sv);
    out
}

/// The items whose question is in `questions`, each question once, in order.
pub fn filter_trivia_items_by_question_list(items: &[TriviaItem], questions: &[String]) -> (r: Vec<
    TriviaItem,
>)
    ensures
        items_view(r@) == filter_items_spec(items_view(items@), views(questions@)),
{
    let ghost iv = items_view(items@);
    let mut out: Vec<TriviaItem> = Vec::new();
    let mut i: usize = 0;
    assert(iv.take(0) =~= Seq::<ItemView>::empty());
    assert(items_view(out@) =~= Seq::<ItemView>::empty());
    while i < items.len()
        invariant
            i <= items@.len(),
            iv == items_view(items@),
            items_view(out@) == filter_items_spec(iv.take(i as int), views(questions@)),
        decreases items@.len() - i,
    {
        proof {
            assert(iv.take(i + 1).drop_last() =~= iv.take(i as int));
            assert(iv.take(i + 1).last() == items@[i as int]@);
        }
        let allowed = contains_string(questions, &items[i].question);
        let kept = items_have_question(&out, &items[i].question);
        if allowed && !kept {
            let ghost before = out@;
            out.push(items[i].clone());
            assert(items_view(out@) =~= items_view(before).push(items@[i as int]@));
        }
        i = i + 1;
    }
    assert(iv.take(items@.len() as int) =~= iv);
    out
}

/// The cached items whose question is in `questions`, each question once, in order.
pub fn filter_cached_items_by_question_list(
    items: &[CachedTriviaItem],
    questions: &[String],
) -> (r: Vec<CachedTriviaItem>)
    ensures
        cached_view(r@) == filter_cached_spec(cached_view(items@), views(questions@)),
{
    let ghost cv = cached_view(items@);
    let mut out: Vec<CachedTriviaItem> = Vec::new();
    let mut i: usize = 0;
    assert(cv.take(0) =~= Seq::<CachedView>::empty());
    assert(cached_view(out@) =~= Seq::<CachedView>::empty());
    while i < items.len()
        invariant
            i <= items@.len(),
            cv == cached_view(items@),
            cached_view(out@) == filter_cached_spec(cv.take(i as int), views(questions@)),
        decreases items@.len() - i,
    {
        proof {
            assert(cv.take(i + 1).drop_last() =~= cv.take(i as int));
            assert(cv.take(i + 1).last() == items@[i as int]@);
        }
        let allowed = contains_string(questions, &items[i].question);
        let kept = cached_have_question(out.as_slice(), &items[i].question);
        if allowed && !kept {
            let ghost before = out@;
            out.push(items[i].clone());
            assert(cached_view(out@) =~= cached_view(before).push(items@[i as int]@));
        }
        i = i + 1;
    }
    assert(cv.take(items@.len() as int) =~= cv);
    out
}

/// `a.saturating_sub(b)`.
pub fn saturating_sub_i64(a: i64, b: i64) -> (r: i64)
    ensures
        r == sat_sub_i64(a as int, b as int),
{
    if b > 0 && a < i64::MIN + b {
        i64::MIN
    } else if b < 0 && a > i64::MAX + b {
        i64::MAX
    } else {
        a - b
    }
}

/// The cached items still usable at time `now` (added at most
/// `CACHE_TTL_SECS` before it), in order. The caller reads the clock.
pub fn ensure_non_stale_cache(cached: &[CachedTriviaItem], now: i64) -> (r: Vec<CachedTriviaItem>)
    ensures
        cached_view(r@) == prune_spec(cached_view(cached@), now as int),
{
    let ghost cv = cached_view(cached@);
    let mut out: Vec<CachedTriviaItem> = Vec::new();
    let mut i: usize = 0;
    assert(cv.take(0) =~= Seq::<CachedView>::empty());
    assert(cached_view(out@) =~= Seq::<CachedView>::empty());
    while i < cached.len()
        invariant
            i <= cached@.len(),
            cv == cached_view(cached@),
            cached_view(out@) == prune_spec(cv.take(i as int), now as int),
        decreases cached@.len() - i,
    {
        proof {
            assert(cv.take(i + 1).drop_last() =~= cv.take(i as int));
            assert(cv.take(i + 1).last() == cached@[i as int]@);
        }
        if saturating_sub_i64(now, cached[i].added_at_epoch_secs) <= CACHE_TTL_SECS {
            let ghost before = out@;
            out.push(cached[i].clone());
            assert(cached_view(out@) =~= cached_view(before).push(cached@[i as int]@));
        }
        i = i + 1;
    }
    assert(cv.take(cached@.len() as int) =~= cv);
    out
}


/// The seen list after `question` was shown: `None` where it stays as it is.
pub fn mark_question_seen_on_display(seen: &[String], question: &str) -> (r: Option<Vec<String>>)
    ensures
        match (r, mark_seen_spec(views(seen@), question@)) {
            (None, None) => true,
            (Some(v), Some(w)) => views(v@) == w,
            _ => false,
        },
{
    let trimmed = trim_str(question);
    if trimmed.as_str().is_empty() {
        return None;
    }
    let q = String::from_str(question);
    if contains_string(seen, &q) {
        return None;
    }
    let mut out: Vec<String> = Vec::new();
    let mut i: usize = 0;
    while i < seen.len()
        invariant
            i <= seen@.len(),
            out@ == seen@.take(i as int),
        decreases seen@.len() - i,
    {
        out.push(seen[i].clone());
        assert(out@ =~= seen@.take(i + 1));
        i = i + 1;
    }
    let ghost before = out@;
    out.push(q);
    assert(before =~= seen@);
    assert(views(out@) =~= views(seen@).push(question@));
    Some(out)
}

/// The seen list read from the text of its file: the strings of a JSON array
/// of strings; nothing where the text is no such array.
pub fn parse_seen_list(contents: &str) -> (r: Vec<String>)
    ensures
        match json_string_array(contents@) {
            Some(v) => views(r@) == v,
            None => r@.len() == 0,
        },
{
    match parse_json_string_array(contents) {
        Ok(v) => v,
        Err(_) => Vec::new(),
    }
}

/// The text of the seen file for a seen list: the list as a pretty JSON array.
pub fn seen_list_text(seen: &[String]) -> (r: String)
    ensures
        r@ == pretty_string_array(views(seen@)),
{
    match pretty_json_strings(seen) {
        Ok(t) => t,
        Err(_) => {
            proof {
                assert(false);
            }
            String::new()
        },
    }
}

/// Items of the old cache format, stamped with the time they are read.
pub fn cached_from_legacy(items: &[TriviaItem], now: i64) -> (r: Vec<CachedTriviaItem>)
    ensures
        r@.len() == items@.len(),
        forall|i: int|
            0 <= i < items@.len() ==> (#[trigger] r@[i])@ == (CachedView {
                question: items@[i].question@,
                answer: items@[i].answer@,
                added_at_epoch_secs: now as int,
            }),
{
    let mut out: Vec<CachedTriviaItem> = Vec::new();
    let mut i: usize = 0;
    while i < items.len()
        invariant
            i <= items@.len(),
            out@.len() == i,
            forall|k: int|
                0 <= k < i ==> (#[trigger] out@[k])@ == (CachedView {
                    question: items@[k].question@,
                    answer: items@[k].answer@,
                    added_at_epoch_secs: now as int,
                }),
        decreases items@.len() - i,
    {
        out.push(
            CachedTriviaItem {
                question: items[i].question.clone(),
                answer: items[i].answer.clone(),
                added_at_epoch_secs: now,
            },
        );
        i = i + 1;
    }
    out
}


/// No two items ask the same question.
pub open spec fn distinct_questions(s: Seq<ItemView>) -> bool {
    forall|i: int, j: int|
        0 <= i < j < s.len() ==> #[trigger] s[i].question != #[trigger] s[j].question
}

/// No two cached items ask the same question.
pub open spec fn distinct_cached_questions(s: Seq<CachedView>) -> bool {
    forall|i: int, j: int|
        0 <= i < j < s.len() ==> #[trigger] s[i].question != #[trigger] s[j].question
}

/// The unseen questions of a round are distinct, none of them seen, each in
/// the cache.
pub proof fn lemma_unseen_distinct(c: Seq<CachedView>, seen: Seq<Seq<char>>)
    ensures
        distinct_questions(unseen_spec(c, seen)),
        forall|i: int|
            0 <= i < unseen_spec(c, seen).len() ==> !seen.contains(
                #[trigger] unseen_spec(c, seen)[i].question,
            ) && cache_has_question(c, unseen_spec(c, seen)[i].question),
    decreases c.len(),
{
    lemma_unseen_members(c, seen);
    if c.len() > 0 {
        lemma_unseen_distinct(c.drop_last(), seen);
        let prev = unseen_spec(c.drop_last(), seen);
        let q = c.last().question;
        if !(seen.contains(q) || has_question(prev, q)) {
            let r = prev.push(fresh_item(c.last()));
            assert forall|i: int, j: int| 0 <= i < j < r.len() implies #[trigger] r[i].question
                != #[trigger] r[j].question by {
                if j == r.len() - 1 {
                    if r[i].question == r[j].question {
                        assert(prev[i].question == q);
                    }
                }
            }
        }
    }
}

/// Recording a question as seen a second time changes nothing.
pub proof fn lemma_mark_seen_once(seen: Seq<Seq<char>>, question: Seq<char>)
    ensures
        mark_seen_spec(seen, question) matches Some(s) ==> mark_seen_spec(s, question) is None,
{
    if let Some(s) = mark_seen_spec(seen, question) {
        assert(s[s.len() - 1] == question);
    }
}

/// Bringing the seen list in line with the cache a second time changes nothing.
pub proof fn lemma_reconcile_idempotent(seen: Seq<Seq<char>>, c: Seq<CachedView>)
    ensures
        reconcile_spec(reconcile_spec(seen, c), c) == reconcile_spec(seen, c),
    decreases seen.len(),
{
    if seen.len() > 0 {
        lemma_reconcile_idempotent(seen.drop_last(), c);
        let prev = reconcile_spec(seen.drop_last(), c);
        if cache_has_question(c, seen.last()) {
            let r = prev.push(seen.last());
            assert(r.drop_last() =~= prev);
        }
    }
}

/// Dropping stale questions a second time, at the same time, changes nothing.
pub proof fn lemma_prune_idempotent(c: Seq<CachedView>, now: int)
    ensures
        prune_spec(prune_spec(c, now), now) == prune_spec(c, now),
    decreases c.len(),
{
    if c.len() > 0 {
        lemma_prune_idempotent(c.drop_last(), now);
        let prev = prune_spec(c.drop_last(), now);
        if is_fresh(c.last().added_at_epoch_secs, now) {
            let r = prev.push(c.last());
            assert(r.drop_last() =~= prev);
        }
    }
}

/// The items kept by a question list ask distinct questions, each in the list.
pub proof fn lemma_filter_items_allowed(items: Seq<ItemView>, questions: Seq<Seq<char>>)
    ensures
        distinct_questions(filter_items_spec(items, questions)),
        forall|i: int|
            0 <= i < filter_items_spec(items, questions).len() ==> questions.contains(
                #[trigger] filter_items_spec(items, questions)[i].question,
            ),
    decreases items.len(),
{
    if items.len() > 0 {
        lemma_filter_items_allowed(items.drop_last(), questions);
        let prev = filter_items_spec(items.drop_last(), questions);
        let q = items.last().question;
        if !(!questions.contains(q) || has_question(prev, q)) {
            let r = prev.push(items.last());
            assert forall|i: int, j: int| 0 <= i < j < r.len() implies #[trigger] r[i].question
                != #[trigger] r[j].question by {
                if j == r.len() - 1 {
                    if r[i].question == r[j].question {
                        assert(prev[i].question == q);
                    }
                }
            }
            assert forall|i: int| 0 <= i < r.len() implies questions.contains(
                #[trigger] r[i].question,
            ) by {
                if i < prev.len() {
                    assert(r[i] == prev[i]);
                }
            }
        }
    }
}

} // verus!
