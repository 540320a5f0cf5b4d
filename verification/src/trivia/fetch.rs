//! The decisions of loading a round of trivia. Reading and writing the cache
//! files and asking the model are outside work: between them, the caller asks
//! these functions what to keep, what to ask and what to answer.
use vstd::prelude::*;
use crate::random::is_pick;
use crate::text::{decimal, decimal_string, push_str, trim, trim_str, views};
use crate::trivia::cache::{
    cache_has_question, cached_view, distinct_cached_questions, distinct_questions, contains_string, filter_cached_items_by_question_list,
    filter_cached_spec, has_question, prune_spec, ensure_non_stale_cache, reconcile_seen_with_cache,
    reconcile_spec, select_round_from_cache, select_round_ok, unique_question_items_from_cache,
    unique_spec, unseen_items_from_cache, unseen_spec, CachedTriviaItem, CachedView,
};
use crate::trivia::model::{
    ai_dedup_spec, items_view, new_batch_spec, round_size, round_size_spec, should_ai_dedup,
    should_generate_new_batch, ExplanationReply, ItemView, TriviaItem, TriviaRequest,
    TriviaSubject,
};
use crate::trivia::prompts::{
    batch_prompt, batch_prompt_spec, bible_prompt, bible_prompt_spec, fun_facts_prompt,
    fun_facts_prompt_spec, riddles_prompt, riddles_prompt_spec,
};
use crate::trivia::scope::{
    bible_counts_spec, chapter_pool_spec, entry_books, get_bible_scope, get_domains,
    get_riddle_topics, usable_topics, SCOPE_BOOKS, SCOPE_CHAPTERS, SCOPE_DOMAINS, SCOPE_TOPICS,
};
use crate::text::nonblank_lines;
use crate::trivia::json::{json_string_array, no_json_message, no_json_message_spec};

verus! {

pub open spec fn cache_file_name_spec(s: TriviaSubject) -> Seq<char> {
    match s {
        TriviaSubject::Bible => "bible.json"@,
        TriviaSubject::FunFacts => "fun-facts.json"@,
        TriviaSubject::Riddles => "riddles.json"@,
    }
}

pub open spec fn seen_file_name_spec(s: TriviaSubject) -> Seq<char> {
    match s {
        TriviaSubject::Bible => "bible-seen.json"@,
        TriviaSubject::FunFacts => "fun-facts-seen.json"@,
        TriviaSubject::Riddles => "riddles-seen.json"@,
    }
}

/// The name of the subject's cache file in the cache directory.
pub fn cache_file_name(request: TriviaRequest) -> (r: &'static str)
    ensures
        r@ == cache_file_name_spec(request.subject),
{
    match request.subject {
        TriviaSubject::Bible => "bible.json",
        TriviaSubject::FunFacts => "fun-facts.json",
        TriviaSubject::Riddles => "riddles.json",
    }
}

/// The name of the subject's seen-questions file in the cache directory.
pub fn seen_file_name(request: TriviaRequest) -> (r: &'static str)
    ensures
        r@ == seen_file_name_spec(request.subject),
{
    match request.subject {
        TriviaSubject::Bible => "bible-seen.json",
        TriviaSubject::FunFacts => "fun-facts-seen.json",
        TriviaSubject::Riddles => "riddles-seen.json",
    }
}

/// The cache and seen list once stale questions are dropped, and which of
/// the two files need writing back.
pub struct CacheRefresh {
    pub cached: Vec<CachedTriviaItem>,
    pub cache_changed: bool,
    pub seen: Vec<String>,
    pub seen_changed: bool,
}

/// The refresh at time `now` of the loaded cache and seen list; the seen
/// list is kept up only where there is a file for it (`track_seen`).
pub open spec fn refresh_ok(
    loaded: Seq<CachedView>,
    seen: Seq<Seq<char>>,
    track_seen: bool,
    now: int,
    r: CacheRefresh,
) -> bool {
    let pruned = prune_spec(loaded, now);
    &&& cached_view(r.cached@) == pruned
    &&& r.cache_changed == (pruned.len() != loaded.len())
    &&& if track_seen {
        let rec = reconcile_spec(seen, pruned);
        views(r.seen@) == rec && r.seen_changed == (rec != seen)
    } else {
        views(r.seen@) == seen && !r.seen_changed
    }
}

fn same_strings(a: &Vec<String>, b: &[String]) -> (r: bool)
    ensures
        r == (views(a@) == views(b@)),
{
    if a.len() != b.len() {
        assert(views(a@).len() != views(b@).len());
        return false;
    }
    let mut i: usize = 0;
    while i < a.len()
        invariant
            i <= a@.len(),
            a@.len() == b@.len(),
            forall|j: int| 0 <= j < i ==> a@[j]@ == b@[j]@,
        decreases a@.len() - i,
    {
        if a[i] != b[i] {
            assert(views(a@)[i as int] != views(b@)[i as int]);
            return false;
        }
        i = i + 1;
    }
    assert(views(a@) =~= views(b@));
    true
}

fn copy_strings(v: &[String]) -> (r: Vec<String>)
    ensures
        r@ == v@,
{
    let mut r: Vec<String> = Vec::new();
    let mut i: usize = 0;
    while i < v.len()
        invariant
            i <= v@.len(),
            r@ == v@.take(i as int),
        decreases v@.len() - i,
    {
        r.push(v[i].clone());
        assert(r@ =~= v@.take(i + 1));
        i = i + 1;
    }
    assert(r@ =~= v@);
    r
}

/// Drops the stale questions at time `now` and brings the seen list in line.
pub fn refresh_cache(
    cached: &[CachedTriviaItem],
    seen: &[String],
    track_seen: bool,
    now: i64,
) -> (r: CacheRefresh)
    ensures
        refresh_ok(cached_view(cached@), views(seen@), track_seen, now as int, r),
{
    let pruned = ensure_non_stale_cache(cached, now);
    assert(cached_view(pruned@).len() == pruned@.len());
    assert(cached_view(cached@).len() == cached@.len());
    let cache_changed = pruned.len() != cached.len();
    if track_seen {
        let reconciled = reconcile_seen_with_cache(seen, pruned.as_slice());
        let seen_changed = !same_strings(&reconciled, seen);
        CacheRefresh { cached: pruned, cache_changed, seen: reconciled, seen_changed }
    } else {
        CacheRefresh { cached: pruned, cache_changed, seen: copy_strings(seen), seen_changed: false }
    }
}


/// Whether a round is served from the cache without asking the model.
pub open spec fn serves_from_cache(s: TriviaSubject, unseen_len: nat) -> bool {
    ai_dedup_spec(s) && unseen_len >= round_size_spec(s) && !new_batch_spec(s)
}

/// The round drawn from the cache where it holds enough unseen questions and
/// the subject does not ask for a new batch every time; `None` where the
/// model is to be asked.
pub fn round_from_cache(
    request: TriviaRequest,
    cached: &[CachedTriviaItem],
    seen: &[String],
) -> (r: Option<Vec<TriviaItem>>)
    ensures
        r is Some <==> serves_from_cache(
            request.subject,
            unseen_spec(cached_view(cached@), views(seen@)).len(),
        ),
        r matches Some(v) ==> select_round_ok(
            cached_view(cached@),
            views(seen@),
            round_size_spec(request.subject),
            v@,
        ),
{
    let size: usize = round_size(request.subject);
    let unseen = unseen_items_from_cache(cached, seen);
    assert(items_view(unseen@).len() == unseen@.len());
    if should_ai_dedup(request.subject) && unseen.len() >= size && !should_generate_new_batch(
        request.subject,
    ) {
        Some(select_round_from_cache(cached, seen, size))
    } else {
        None
    }
}

/// Questions sent to the model per deduplication request.
pub const AI_DEDUP_BATCH_SIZE: usize = 500;

/// The deduplication of the cache by the model, one batch of questions at a
/// time: each batch is sent with the questions kept so far, and the model
/// answers which of the batch's questions survive.
pub struct CacheDedup {
    cached: Vec<CachedTriviaItem>,
    survivors: Vec<CachedTriviaItem>,
    next: usize,
}

/// The end of the batch that starts at `start`.
pub open spec fn batch_end(start: nat, len: nat) -> nat {
    if start + (AI_DEDUP_BATCH_SIZE as nat) < len {
        start + AI_DEDUP_BATCH_SIZE as nat
    } else {
        len
    }
}

pub open spec fn questions_of(c: Seq<CachedView>) -> Seq<Seq<char>> {
    c.map_values(|x: CachedView| x.question)
}

impl CacheDedup {
    pub closed spec fn items(&self) -> Seq<CachedView> {
        cached_view(self.cached@)
    }

    pub closed spec fn kept(&self) -> Seq<CachedView> {
        cached_view(self.survivors@)
    }

    pub closed spec fn position(&self) -> nat {
        self.next as nat
    }

    pub closed spec fn wf(&self) -> bool {
        self.next <= self.cached@.len()
    }

    /// Whether all batches are answered (or, for a cache of one question or
    /// none, no batch is needed).
    pub open spec fn done(&self) -> bool {
        self.items().len() <= 1 || self.position() >= self.items().len()
    }

    pub fn new(cached: Vec<CachedTriviaItem>) -> (d: Self)
        ensures
            d.wf(),
            d.items() == cached_view(cached@),
            d.kept() == Seq::<CachedView>::empty(),
            d.position() == 0,
    {
        let d = CacheDedup { cached, survivors: Vec::new(), next: 0 };
        assert(d.kept() =~= Seq::<CachedView>::empty());
        d
    }

    /// The next request: the questions kept so far, which the model is to
    /// treat as banned, and the questions of the next batch. `None` once done.
    pub fn next_batch(&self) -> (r: Option<(Vec<String>, Vec<String>)>)
        requires
            self.wf(),
        ensures
            r is None <==> self.done(),
            r matches Some(b) ==> views(b.0@) == questions_of(self.kept()) && views(b.1@)
                == questions_of(
                self.items().subrange(
                    self.position() as int,
                    batch_end(self.position(), self.items().len()) as int,
                ),
            ),
    {
        assert(self.items().len() == self.cached@.len());
        if self.cached.len() <= 1 || self.next >= self.cached.len() {
            return None;
        }
        let end: usize = if self.cached.len() - self.next > AI_DEDUP_BATCH_SIZE {
            self.next + AI_DEDUP_BATCH_SIZE
        } else {
            self.cached.len()
        };
        let mut banned: Vec<String> = Vec::new();
        let mut i: usize = 0;
        while i < self.survivors.len()
            invariant
                i <= self.survivors@.len(),
                views(banned@) == questions_of(cached_view(self.survivors@)).take(i as int),
            decreases self.survivors@.len() - i,
        {
            let ghost before = banned@;
            proof {
                assert(cached_view(self.survivors@)[i as int] == self.survivors@[i as int]@);
                assert(questions_of(cached_view(self.survivors@))[i as int]
                    == self.survivors@[i as int].question@);
            }
            banned.push(self.survivors[i].question.clone());
            assert(views(banned@) =~= views(before).push(self.survivors@[i as int].question@));
            assert(views(banned@) =~= questions_of(cached_view(self.survivors@)).take(i + 1));
            i = i + 1;
        }
        assert(questions_of(cached_view(self.survivors@)).take(self.survivors@.len() as int)
            =~= questions_of(cached_view(self.survivors@)));
        let mut candidates: Vec<String> = Vec::new();
        let mut k: usize = self.next;
        let ghost chunk = cached_view(self.cached@).subrange(self.next as int, end as int);
        while k < end
            invariant
                self.next <= k <= end <= self.cached@.len(),
                chunk == cached_view(self.cached@).subrange(self.next as int, end as int),
                views(candidates@) == questions_of(chunk).take(k - self.next),
            decreases end - k,
        {
            proof {
                assert(chunk[k - self.next] == self.cached@[k as int]@);
                assert(questions_of(chunk)[k - self.next] == self.cached@[k as int].question@);
            }
            let ghost before = candidates@;
            candidates.push(self.cached[k].question.clone());
            assert(views(candidates@) =~= views(before).push(self.cached@[k as int].question@));
            assert(views(candidates@) =~= questions_of(chunk).take(k - self.next + 1));
            k = k + 1;
        }
        assert(questions_of(chunk).take(end - self.next) =~= questions_of(chunk));
        Some((banned, candidates))
    }

    /// Takes in the model's answer for the pending batch: the batch's items
    /// whose question survived, each question once, are kept.
    pub fn accept_batch(&mut self, surviving_questions: &[String])
        requires
            old(self).wf(),
            !old(self).done(),
        ensures
            final(self).wf(),
            final(self).items() == old(self).items(),
            final(self).position() == batch_end(old(self).position(), old(self).items().len()),
            final(self).kept() == old(self).kept() + filter_cached_spec(
                old(self).items().subrange(
                    old(self).position() as int,
                    batch_end(old(self).position(), old(self).items().len()) as int,
                ),
                views(surviving_questions@),
            ),
    {
        assert(self.items().len() == self.cached@.len());
        let end: usize = if self.cached.len() - self.next > AI_DEDUP_BATCH_SIZE {
            self.next + AI_DEDUP_BATCH_SIZE
        } else {
            self.cached.len()
        };
        let mut chunk: Vec<CachedTriviaItem> = Vec::new();
        let mut k: usize = self.next;
        while k < end
            invariant
                self.next <= k <= end <= self.cached@.len(),
                chunk@ == self.cached@.subrange(self.next as int, k as int),
            decreases end - k,
        {
            chunk.push(self.cached[k].clone());
            assert(chunk@ =~= self.cached@.subrange(self.next as int, k + 1));
            k = k + 1;
        }
        assert(cached_view(chunk@) =~= cached_view(self.cached@).subrange(
            self.next as int,
            end as int,
        ));
        let kept = filter_cached_items_by_question_list(chunk.as_slice(), surviving_questions);
        let ghost before = self.survivors@;
        let mut i: usize = 0;
        while i < kept.len()
            invariant
                i <= kept@.len(),
                self.survivors@ == before + kept@.take(i as int),
                self.cached@ == old(self).cached@,
                self.next == old(self).next,
                end <= self.cached@.len(),
            decreases kept@.len() - i,
        {
            self.survivors.push(kept[i].clone());
            assert(self.survivors@ =~= before + kept@.take(i + 1));
            i = i + 1;
        }
        assert(kept@.take(kept@.len() as int) =~= kept@);
        assert(cached_view(self.survivors@) =~= cached_view(before) + cached_view(kept@));
        self.next = end;
    }

    /// The deduplicated cache: the kept items, or the cache itself where it
    /// holds one question or none.
    pub fn result(self) -> (r: Vec<CachedTriviaItem>)
        requires
            self.wf(),
        ensures
            cached_view(r@) == (if self.items().len() <= 1 {
                self.items()
            } else {
                self.kept()
            }),
    {
        if self.cached.len() <= 1 {
            self.cached
        } else {
            self.survivors
        }
    }
}

pub open spec fn too_few_message(s: TriviaSubject) -> Seq<char> {
    "Model returned fewer than "@ + decimal(round_size_spec(s)) + " trivia items. Please retry."@
}

/// Checks that the model returned a full round of items.
pub fn check_generated_count(request: TriviaRequest, count: usize) -> (r: Result<(), String>)
    ensures
        r is Ok <==> count >= round_size_spec(request.subject),
        r matches Err(m) ==> m@ == too_few_message(request.subject),
{
    let size: usize = round_size(request.subject);
    if count < size {
        let mut m = String::from_str("Model returned fewer than ");
        let n = decimal_string(size);
        push_str(&mut m, n.as_str());
        push_str(&mut m, " trivia items. Please retry.");
        Err(m)
    } else {
        Ok(())
    }
}

/// The generated items that are new: not blank, not in the cache, and each
/// question once.
pub open spec fn final_fresh_spec(c: Seq<CachedView>, fresh: Seq<ItemView>) -> Seq<ItemView>
    decreases fresh.len(),
{
    if fresh.len() == 0 {
        Seq::empty()
    } else {
        let prev = final_fresh_spec(c, fresh.drop_last());
        let q = fresh.last().question;
        if trim(q).len() == 0 || cache_has_question(c, q) || has_question(prev, q) {
            prev
        } else {
            prev.push(fresh.last())
        }
    }
}

/// New items as cache entries added at `now`.
pub open spec fn stamped(fresh: Seq<ItemView>, now: int) -> Seq<CachedView> {
    fresh.map_values(
        |i: ItemView| CachedView { question: i.question, answer: i.answer, added_at_epoch_secs: now },
    )
}

pub open spec fn all_duplicates_message() -> Seq<char> {
    "All generated questions were duplicates. Press Enter to request another batch."@
}

/// What completing a round at time `now` gives: the new items appended to the
/// cache, and the round drawn from the grown cache (or, for a subject without
/// model deduplication, the first new items).
pub open spec fn complete_round_ok(
    s: TriviaSubject,
    c: Seq<CachedView>,
    seen: Seq<Seq<char>>,
    fresh: Seq<ItemView>,
    now: int,
    r: Result<(Vec<CachedTriviaItem>, Vec<TriviaItem>), String>,
) -> bool {
    let ff = final_fresh_spec(c, fresh);
    match r {
        Err(m) => ff.len() == 0 && m@ == all_duplicates_message(),
        Ok(out) => {
            &&& ff.len() > 0
            &&& cached_view(out.0@) == c + stamped(ff, now)
            &&& if ai_dedup_spec(s) {
                select_round_ok(c + stamped(ff, now), seen, round_size_spec(s), out.1@)
            } else {
                items_view(out.1@) == ff.take(
                    if ff.len() < round_size_spec(s) {
                        ff.len() as int
                    } else {
                        round_size_spec(s) as int
                    },
                )
            }
        },
    }
}

fn fresh_has_question(items: &Vec<TriviaItem>, q: &String) -> (b: bool)
    ensures
        b == has_question(items_view(items@), q@),
{
    let mut i: usize = 0;
    while i < items.len()
        invariant
            i <= items@.len(),
            forall|j: int| 0 <= j < i ==> items@[j].question@ != q@,
        decreases items@.len() - i,
    {
        if items[i].question == *q {
            assert(items_view(items@)[i as int].question == q@);
            return true;
        }
        i = i + 1;
    }
    assert forall|j: int| 0 <= j < items_view(items@).len() implies items_view(items@)[j].question
        != q@ by {
        assert(items@[j].question@ != q@);
    }
    false
}

fn cache_has(items: &Vec<CachedTriviaItem>, q: &String) -> (b: bool)
    ensures
        b == cache_has_question(cached_view(items@), q@),
{
    let mut i: usize = 0;
    while i < items.len()
        invariant
            i <= items@.len(),
            forall|j: int| 0 <= j < i ==> items@[j].question@ != q@,
        decreases items@.len() - i,
    {
        if items[i].question == *q {
            assert(cached_view(items@)[i as int].question == q@);
            return true;
        }
        i = i + 1;
    }
    assert forall|j: int| 0 <= j < cached_view(items@).len() implies cached_view(items@)[j].question
        != q@ by {
        assert(items@[j].question@ != q@);
    }
    false
}

/// Completes a round at time `now` from the items the model generated (after
/// its own deduplication): keeps the new ones, appends them to the cache, and
/// draws the round.
pub fn complete_round(
    request: TriviaRequest,
    cached: Vec<CachedTriviaItem>,
    seen: &[String],
    fresh: &[TriviaItem],
    now: i64,
) -> (r: Result<(Vec<CachedTriviaItem>, Vec<TriviaItem>), String>)
    ensures
        complete_round_ok(
            request.subject,
            cached_view(cached@),
            views(seen@),
            items_view(fresh@),
            now as int,
            r,
        ),
{
    let ghost cv = cached_view(cached@);
    let ghost fv = items_view(fresh@);
    let mut kept: Vec<TriviaItem> = Vec::new();
    let mut i: usize = 0;
    assert(fv.take(0) =~= Seq::<ItemView>::empty());
    assert(items_view(kept@) =~= Seq::<ItemView>::empty());
    while i < fresh.len()
        invariant
            i <= fresh@.len(),
            fv == items_view(fresh@),
            cv == cached_view(cached@),
            items_view(kept@) == final_fresh_spec(cv, fv.take(i as int)),
        decreases fresh@.len() - i,
    {
        proof {
            assert(fv.take(i + 1).drop_last() =~= fv.take(i as int));
            assert(fv.take(i + 1).last() == fresh@[i as int]@);
        }
        let blank = trim_str(fresh[i].question.as_str()).as_str().is_empty();
        if !blank {
            let dup = cache_has(&cached, &fresh[i].question) || fresh_has_question(
                &kept,
                &fresh[i].question,
            );
            if !dup {
                let ghost before = kept@;
                kept.push(fresh[i].clone());
                assert(items_view(kept@) =~= items_view(before).push(fresh@[i as int]@));
            }
        }
        i = i + 1;
    }
    assert(fv.take(fresh@.len() as int) =~= fv);
    assert(items_view(kept@).len() == kept@.len());
    if kept.len() == 0 {
        return Err(
            String::from_str(
                "All generated questions were duplicates. Press Enter to request another batch.",
            ),
        );
    }
    let mut grown = cached;
    let mut k: usize = 0;
    while k < kept.len()
        invariant
            k <= kept@.len(),
            items_view(kept@) == final_fresh_spec(cv, fv),
            cached_view(grown@) == cv + stamped(items_view(kept@), now as int).take(k as int),
        decreases kept@.len() - k,
    {
        let ghost before = grown@;
        proof {
            assert(items_view(kept@)[k as int] == kept@[k as int]@);
            assert(stamped(items_view(kept@), now as int)[k as int] == (CachedView {
                question: kept@[k as int].question@,
                answer: kept@[k as int].answer@,
                added_at_epoch_secs: now as int,
            }));
        }
        grown.push(
            CachedTriviaItem {
                question: kept[k].question.clone(),
                answer: kept[k].answer.clone(),
                added_at_epoch_secs: now,
            },
        );
        assert(cached_view(grown@) =~= cached_view(before).push(
            stamped(items_view(kept@), now as int)[k as int],
        ));
        assert(cv + stamped(items_view(kept@), now as int).take(k + 1) =~= (cv + stamped(
            items_view(kept@),
            now as int,
        ).take(k as int)).push(stamped(items_view(kept@), now as int)[k as int]));
        k = k + 1;
    }
    assert(stamped(items_view(kept@), now as int).take(kept@.len() as int) =~= stamped(
        items_view(kept@),
        now as int,
    ));
    let size: usize = round_size(request.subject);
    if should_ai_dedup(request.subject) {
        let round = select_round_from_cache(grown.as_slice(), seen, size);
        Ok((grown, round))
    } else {
        let mut round = kept;
        round.truncate(size);
        assert(items_view(round@) =~= final_fresh_spec(cv, fv).take(
            if final_fresh_spec(cv, fv).len() < size {
                final_fresh_spec(cv, fv).len() as int
            } else {
                size as int
            },
        ));
        Ok((grown, round))
    }
}


/// The asset texts that the batch prompts draw their random scope from.
pub struct ScopeAssets {
    /// `Book | chapters` lines.
    pub bible_chapter_counts: String,
    /// One word per line.
    pub dictionary_words: String,
    /// A JSON array of topic strings.
    pub riddle_topics: String,
}

/// `b` is, as text, a random pick of at most `n` of `from`.
pub open spec fn picked_views(b: Seq<Seq<char>>, from: Seq<Seq<char>>, n: nat) -> bool {
    exists|x: Seq<String>, y: Seq<String>|
        views(x) == b && views(y) == from && #[trigger] is_pick(x, y, n)
}

/// What building the batch prompt for subject `s` gives: the prompt around a
/// random scope drawn from the assets, with the cached questions banned; or
/// why the assets give no scope.
pub open spec fn generation_prompt_ok(
    s: TriviaSubject,
    c: Seq<CachedView>,
    bible: Seq<char>,
    dictionary: Seq<char>,
    topics: Seq<char>,
    r: Result<String, String>,
) -> bool {
    let u = unique_spec(c);
    match s {
        TriviaSubject::Bible => match (r, bible_counts_spec(bible)) {
            (Err(m), Err(n)) => m@ == n,
            (Err(m), Ok(e)) => chapter_pool_spec(e).len() < SCOPE_CHAPTERS && m@
                == "Bible chapter pool has fewer than 20 entries"@,
            (Ok(p), Ok(e)) => exists|b: Seq<Seq<char>>, ch: Seq<Seq<char>>|
                picked_views(b, entry_books(e), SCOPE_BOOKS as nat) && picked_views(
                    ch,
                    chapter_pool_spec(e),
                    SCOPE_CHAPTERS as nat,
                ) && p@ == #[trigger] batch_prompt_spec(bible_prompt_spec(u, b, ch)),
            _ => false,
        },
        TriviaSubject::FunFacts => match r {
            Err(m) => nonblank_lines(dictionary).len() == 0 && m@
                == "dictionary-words.txt is empty"@,
            Ok(p) => exists|d: Seq<Seq<char>>|
                picked_views(d, nonblank_lines(dictionary), SCOPE_DOMAINS as nat) && p@
                    == #[trigger] batch_prompt_spec(fun_facts_prompt_spec(u, d)),
        },
        TriviaSubject::Riddles => match (r, json_string_array(topics)) {
            (Err(m), None) => exists|t: Seq<char>|
                m@ == "Failed to parse riddle-topics.json: "@ + t,
            (Err(m), Some(t)) => usable_topics(t).len() == 0 && m@
                == "riddle-topics.json has no usable topics"@,
            (Ok(p), Some(t)) => exists|d: Seq<Seq<char>>|
                picked_views(d, usable_topics(t), SCOPE_TOPICS as nat) && p@
                    == #[trigger] batch_prompt_spec(riddles_prompt_spec(u, d)),
            _ => false,
        },
    }
}

/// The prompt for a new batch of the subject: the output requirement, then
/// the subject's prompt with a random scope and the cached questions banned.
pub fn generation_prompt(
    request: TriviaRequest,
    cached: &[CachedTriviaItem],
    assets: &ScopeAssets,
) -> (r: Result<String, String>)
    ensures
        generation_prompt_ok(
            request.subject,
            cached_view(cached@),
            assets.bible_chapter_counts@,
            assets.dictionary_words@,
            assets.riddle_topics@,
            r,
        ),
{
    let cached_trivia = unique_question_items_from_cache(cached);
    match request.subject {
        TriviaSubject::Bible => {
            let (books, chapters) = match get_bible_scope(assets.bible_chapter_counts.as_str()) {
                Ok(scope) => scope,
                Err(m) => {
                    return Err(m);
                },
            };
            let base = bible_prompt(cached_trivia.as_slice(), books.as_slice(), chapters.as_slice());
            let p = batch_prompt(base.as_str());
            proof {
                let e = bible_counts_spec(assets.bible_chapter_counts@)->Ok_0;
                let bs = choose|bs: Seq<String>|
                    views(bs) == entry_books(e) && #[trigger] is_pick(books@, bs, SCOPE_BOOKS as nat);
                let cs = choose|cs: Seq<String>|
                    views(cs) == chapter_pool_spec(e) && #[trigger] is_pick(
                        chapters@,
                        cs,
                        SCOPE_CHAPTERS as nat,
                    );
                assert(is_pick(books@, bs, SCOPE_BOOKS as nat));
                assert(picked_views(views(books@), entry_books(e), SCOPE_BOOKS as nat));
                assert(is_pick(chapters@, cs, SCOPE_CHAPTERS as nat));
                assert(picked_views(views(chapters@), chapter_pool_spec(e), SCOPE_CHAPTERS as nat));
                assert(p@ == batch_prompt_spec(
                    bible_prompt_spec(unique_spec(cached_view(cached@)), views(books@), views(chapters@)),
                ));
            }
            Ok(p)
        },
        TriviaSubject::FunFacts => {
            let domains = match get_domains(assets.dictionary_words.as_str()) {
                Ok(d) => d,
                Err(m) => {
                    return Err(m);
                },
            };
            let base = fun_facts_prompt(cached_trivia.as_slice(), domains.as_slice());
            let p = batch_prompt(base.as_str());
            proof {
                let all = choose|all: Seq<String>|
                    views(all) == nonblank_lines(assets.dictionary_words@) && #[trigger] is_pick(
                        domains@,
                        all,
                        SCOPE_DOMAINS as nat,
                    );
                assert(is_pick(domains@, all, SCOPE_DOMAINS as nat));
                assert(picked_views(views(domains@), nonblank_lines(assets.dictionary_words@), SCOPE_DOMAINS as nat));
            }
            Ok(p)
        },
        TriviaSubject::Riddles => {
            let topics = match get_riddle_topics(assets.riddle_topics.as_str()) {
                Ok(t) => t,
                Err(m) => {
                    return Err(m);
                },
            };
            let base = riddles_prompt(cached_trivia.as_slice(), topics.as_slice());
            let p = batch_prompt(base.as_str());
            proof {
                let t = json_string_array(assets.riddle_topics@)->Some_0;
                let all = choose|all: Seq<String>|
                    views(all) == usable_topics(t) && #[trigger] is_pick(
                        topics@,
                        all,
                        SCOPE_TOPICS as nat,
                    );
                assert(is_pick(topics@, all, SCOPE_TOPICS as nat));
                assert(picked_views(views(topics@), usable_topics(t), SCOPE_TOPICS as nat));
            }
            Ok(p)
        },
    }
}


/// Whether the cache goes to the model for deduplication before a new batch:
/// for subjects that deduplicate, when the cache holds anything.
pub fn wants_cache_dedup(request: TriviaRequest, cached: &[CachedTriviaItem]) -> (b: bool)
    ensures
        b == (ai_dedup_spec(request.subject) && cached@.len() > 0),
{
    should_ai_dedup(request.subject) && cached.len() > 0
}

/// The cache after the model's deduplication: what it kept, and whether that
/// differs in size from before (so the file needs writing); where the
/// deduplication failed, the cache as it was, unchanged.
pub fn settle_cache_dedup(
    cached: Vec<CachedTriviaItem>,
    outcome: Result<Vec<CachedTriviaItem>, String>,
) -> (r: (Vec<CachedTriviaItem>, bool))
    ensures
        match outcome {
            Ok(d) => r.0@ == d@ && r.1 == (d@.len() != cached@.len()),
            Err(_) => r.0@ == cached@ && !r.1,
        },
{
    match outcome {
        Ok(d) => {
            let changed = d.len() != cached.len();
            (d, changed)
        },
        Err(_) => (cached, false),
    }
}

/// The new items after the model's deduplication of them: what it kept; where
/// that failed, the items as generated.
pub fn settle_new_item_dedup(
    generated: Vec<TriviaItem>,
    outcome: Result<Vec<TriviaItem>, String>,
) -> (r: Vec<TriviaItem>)
    ensures
        match outcome {
            Ok(d) => r@ == d@,
            Err(_) => r@ == generated@,
        },
{
    match outcome {
        Ok(d) => d,
        Err(_) => generated,
    }
}

/// Takes the explanation the model returned; a blank one is an error.
pub fn accept_explanation(explanation: String) -> (r: Result<String, String>)
    ensures
        r is Err <==> trim(explanation@).len() == 0,
        r matches Ok(e) ==> e@ == explanation@,
        r matches Err(m) ==> m@ == "Model returned an empty explanation."@,
{
    if trim_str(explanation.as_str()).as_str().is_empty() {
        Err(String::from_str("Model returned an empty explanation."))
    } else {
        Ok(explanation)
    }
}


/// The explanation of the first reply that was read, if any: `replies[i]` is
/// what the `i`-th JSON candidate of the reply text read as.
pub open spec fn first_explanation(replies: Seq<Option<ExplanationReply>>) -> Option<Seq<char>>
    decreases replies.len(),
{
    if replies.len() == 0 {
        None
    } else {
        match replies[0] {
            Some(e) => Some(e.explanation@),
            None => first_explanation(replies.drop_first()),
        }
    }
}

/// The explanation in the model's reply `text`, given what each of its JSON
/// candidates (`json_candidates`, in order) read as: the first one read,
/// where it is not blank; the empty-explanation error where it is; and the
/// no-JSON message where no candidate read as a reply.
pub fn explanation_from_reply(text: &str, replies: Vec<Option<ExplanationReply>>) -> (r: Result<
    String,
    String,
>)
    ensures
        match first_explanation(replies@) {
            Some(e) => match r {
                Ok(x) => x@ == e && trim(e).len() > 0,
                Err(m) => trim(e).len() == 0 && m@ == "Model returned an empty explanation."@,
            },
            None => r matches Err(m) && m@ == no_json_message_spec(text@),
        },
{
    let ghost all = replies@;
    let mut rs = replies;
    let mut i: usize = 0;
    assert(all.skip(0) =~= all);
    while i < rs.len()
        invariant
            i <= rs@.len(),
            rs@ == all,
            all == replies@,
            first_explanation(all) == first_explanation(all.skip(i as int)),
        decreases rs@.len() - i,
    {
        assert(all.skip(i as int)[0] == all[i as int]);
        assert(all.skip(i as int).drop_first() =~= all.skip(i + 1));
        if rs[i].is_some() {
            let reply = rs.remove(i);
            match reply {
                Some(rep) => {
                    assert(all[i as int] == Some(rep));
                    assert(first_explanation(all.skip(i as int)) == Some(rep.explanation@));
                    return accept_explanation(rep.explanation);
                },
                None => {
                    proof {
                        assert(false);
                    }
                },
            }
            return Err(no_json_message(text));
        }
        i = i + 1;
    }
    assert(all.skip(i as int).len() == 0);
    Err(no_json_message(text))
}

/// The items of the first reply that was read, if any: `replies[i]` is what
/// the `i`-th JSON candidate of the reply text read as.
pub open spec fn first_items(replies: Seq<Option<Vec<TriviaItem>>>) -> Option<Seq<ItemView>>
    decreases replies.len(),
{
    if replies.len() == 0 {
        None
    } else {
        match replies[0] {
            Some(v) => Some(items_view(v@)),
            None => first_items(replies.drop_first()),
        }
    }
}

/// The items in the model's reply `text`, given what each of its JSON
/// candidates (`json_candidates`, in order) read as: the first one read; the
/// no-JSON message where no candidate read as a list of items.
pub fn items_from_reply(text: &str, replies: Vec<Option<Vec<TriviaItem>>>) -> (r: Result<
    Vec<TriviaItem>,
    String,
>)
    ensures
        match first_items(replies@) {
            Some(v) => r matches Ok(x) && items_view(x@) == v,
            None => r matches Err(m) && m@ == no_json_message_spec(text@),
        },
{
    let ghost all = replies@;
    let mut rs = replies;
    let mut i: usize = 0;
    assert(all.skip(0) =~= all);
    while i < rs.len()
        invariant
            i <= rs@.len(),
            rs@ == all,
            all == replies@,
            first_items(all) == first_items(all.skip(i as int)),
        decreases rs@.len() - i,
    {
        assert(all.skip(i as int)[0] == all[i as int]);
        assert(all.skip(i as int).drop_first() =~= all.skip(i + 1));
        if rs[i].is_some() {
            let reply = rs.remove(i);
            match reply {
                Some(v) => {
                    assert(all[i as int] == Some(v));
                    assert(first_items(all.skip(i as int)) == Some(items_view(v@)));
                    return Ok(v);
                },
                None => {
                    proof {
                        assert(false);
                    }
                },
            }
            return Err(no_json_message(text));
        }
        i = i + 1;
    }
    assert(all.skip(i as int).len() == 0);
    Err(no_json_message(text))
}

/// The text of a reply of the Gemini API, given the texts of the parts of
/// each of its candidates: the first part of the first candidate; an error
/// where there is no candidate, or the first has no part.
pub fn first_reply_text(candidates: Vec<Vec<String>>) -> (r: Result<String, String>)
    ensures
        match r {
            Ok(t) => candidates@.len() > 0 && candidates@[0]@.len() > 0 && t@
                == candidates@[0]@[0]@,
            Err(m) => (candidates@.len() == 0 && m@
                == "No candidates in response (Check safety filters/billing)"@) || (
            candidates@.len() > 0 && candidates@[0]@.len() == 0 && m@
                == "No text in response part"@),
        },
{
    if candidates.len() == 0 {
        return Err(String::from_str("No candidates in response (Check safety filters/billing)"));
    }
    let first = &candidates[0];
    if first.len() == 0 {
        return Err(String::from_str("No text in response part"));
    }
    Ok(first[0].clone())
}

/// The new items of a batch ask distinct, non-blank questions that the
/// cache does not hold.
pub proof fn lemma_final_fresh_new(c: Seq<CachedView>, fresh: Seq<ItemView>)
    ensures
        distinct_questions(final_fresh_spec(c, fresh)),
        forall|i: int|
            0 <= i < final_fresh_spec(c, fresh).len() ==> !cache_has_question(
                c,
                #[trigger] final_fresh_spec(c, fresh)[i].question,
            ) && trim(final_fresh_spec(c, fresh)[i].question).len() > 0,
    decreases fresh.len(),
{
    if fresh.len() > 0 {
        lemma_final_fresh_new(c, fresh.drop_last());
        let prev = final_fresh_spec(c, fresh.drop_last());
        let q = fresh.last().question;
        if !(trim(q).len() == 0 || cache_has_question(c, q) || has_question(prev, q)) {
            let r = prev.push(fresh.last());
            assert forall|i: int, j: int| 0 <= i < j < r.len() implies #[trigger] r[i].question
                != #[trigger] r[j].question by {
                if j == r.len() - 1 {
                    if r[i].question == r[j].question {
                        assert(prev[i].question == q);
                    }
                }
            }
            assert forall|i: int| 0 <= i < r.len() implies !cache_has_question(
                c,
                #[trigger] r[i].question,
            ) && trim(r[i].question).len() > 0 by {
                if i < prev.len() {
                    assert(r[i] == prev[i]);
                }
            }
        }
    }
}

/// Completing a round keeps the questions of the cache distinct.
pub proof fn lemma_cache_stays_distinct(c: Seq<CachedView>, fresh: Seq<ItemView>, now: int)
    requires
        distinct_cached_questions(c),
    ensures
        distinct_cached_questions(c + stamped(final_fresh_spec(c, fresh), now)),
{
    lemma_final_fresh_new(c, fresh);
    let ff = final_fresh_spec(c, fresh);
    let g = c + stamped(ff, now);
    assert forall|i: int, j: int| 0 <= i < j < g.len() implies #[trigger] g[i].question
        != #[trigger] g[j].question by {
        if j >= c.len() {
            let j2: int = j - c.len();
            assert(g[j].question == ff[j2].question);
            if i >= c.len() {
                let i2: int = i - c.len();
                assert(g[i].question == ff[i2].question);
            } else {
                if g[i].question == g[j].question {
                    assert(c[i].question == ff[j2].question);
                    assert(cache_has_question(c, ff[j2].question));
                }
            }
        }
    }
}

/// Only Riddles asks the model for a new batch every round: Bible and Fun Facts
/// are served from the cache whenever it holds a round of unseen questions
/// (20 for both), and Riddles never is.
pub proof fn lemma_cache_serves_all_but_riddles(s: TriviaSubject, unseen_len: nat)
    ensures
        serves_from_cache(s, unseen_len) == (s != TriviaSubject::Riddles && unseen_len
            >= round_size_spec(s)),
        round_size_spec(TriviaSubject::Bible) == 20,
        round_size_spec(TriviaSubject::FunFacts) == 20,
{
}

/// After a new batch, the round is drawn from the whole cache that is
/// returned (the old cache, unchanged, followed by the new items), not from
/// the new items alone: it is a selection of the returned cache's unseen
/// questions, a full round wherever that cache holds one.
pub proof fn lemma_round_drawn_from_grown_cache(
    s: TriviaSubject,
    c: Seq<CachedView>,
    seen: Seq<Seq<char>>,
    fresh: Seq<ItemView>,
    now: int,
    r: Result<(Vec<CachedTriviaItem>, Vec<TriviaItem>), String>,
)
    requires
        complete_round_ok(s, c, seen, fresh, now, r),
        r is Ok,
    ensures
        cached_view(r->Ok_0.0@).len() > c.len(),
        cached_view(r->Ok_0.0@).take(c.len() as int) == c,
        select_round_ok(cached_view(r->Ok_0.0@), seen, round_size_spec(s), r->Ok_0.1@),
        unseen_spec(cached_view(r->Ok_0.0@), seen).len() >= round_size_spec(s) ==> r->Ok_0.1@.len()
            == round_size_spec(s),
{
    let out = r->Ok_0;
    let g = cached_view(out.0@);
    assert(g.take(c.len() as int) =~= c);
    let u = unseen_spec(g, seen);
    if u.len() >= round_size_spec(s) {
        let from = choose|from: Seq<TriviaItem>|
            items_view(from) == u && #[trigger] is_pick(out.1@, from, round_size_spec(s));
        let p = choose|p: Seq<TriviaItem>|
            #![trigger p.to_multiset()]
            p.to_multiset() == from.to_multiset() && out.1@ == p.take(
                if round_size_spec(s) < from.len() {
                    round_size_spec(s) as int
                } else {
                    from.len() as int
                },
            );
        assert(items_view(from).len() == from.len());
        broadcast use vstd::seq_lib::group_to_multiset_ensures;

        assert(p.to_multiset().len() == from.to_multiset().len());
    }
}

} // verus!
