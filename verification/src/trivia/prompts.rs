//! The texts sent to the model: the prompts that ask for a batch of
//! questions, the block of questions not to repeat, and the explanation prompt.
use vstd::prelude::*;
use crate::text::{join, join_strings, push_str, replace_all, replace_str, views};
use crate::trivia::json::{
    json_error_text, pretty_json_question_answer, pretty_json_strings,
    pretty_question_answer, pretty_string_array,
};
use crate::trivia::model::{items_view, ExplanationRequest, ItemView, TriviaItem};

verus! {

/// The requirement put before every batch prompt.
pub const JSON_OUTPUT_CONTRACT: &'static str = "MOST IMPORTANT REQUIREMENT: Return valid JSON only.\n\
Do not include markdown, explanations, or code fences.\n\
Return exactly one top-level JSON array where each item has string fields 'question' and 'answer'.";

/// The opening of the block that lists previously asked questions.
pub const ASKED_HEADER: &'static str = "\n\nDo NOT repeat or reuse ANY of the following in ANY form:\n\
        - Do NOT repeat the same question text.\n\
        - Do NOT reuse the same underlying fact, idea, theme, event, character, concept, or data point.\n\
        - Do NOT create a question that is a rephrasing, variation, or semantic equivalent of any previously asked question.\n\
        - Do NOT use the same source material, narrative cluster, or conceptual category as any previously asked item.\n\
        - Treat all previously asked questions as permanently banned concepts.\n\
        Previously asked items:\n";

/// The Bible prompt, with `__BOOKS__` and `__CHAPTERS__` for the scope of the run.
pub const BIBLE_TEMPLATE: &'static str = r#"
Task:
Generate exactly 100 unique, highly challenging Bible trivia questions rooted in deep textual facts from the King James Bible.

Difficulty Level:
- Target Audience: Seasoned Christians with deep knowledge of the biblical text.
- Challenge: Focus on obscure verses, minor characters, specific numbers, unusual laws, rare events, and overlooked narrative details. Avoid surface-level stories (e.g., the Nativity, the Flood, David vs Goliath) unless asking about an extremely niche technical detail of the account.

Style Guidelines:
- Format: Use a professional, direct trivia-competition style (Jeopardy-like).
- Clarity: Questions must be sharp, factual, and free of conversational filler, "witty" setups, or humorous framing.
- Answers: Answers should be concise but can be phrases or names as required by the text. Avoid unnecessary explanations unless required for identification.

Content Rules:
- All facts must come directly from the King James Bible.
- No paraphrasing: the fact must be verifiable word-for-word in the KJV.
- Use the following randomly selected scope for this run to ensure diversity:
    * Books focus (5 random books): __BOOKS__
    * Chapter focus (20 random Book:Chapter targets): __CHAPTERS__
- For each question, choose a fact from either the selected books OR the selected Book:Chapter targets.

Novelty Rules:
- Do NOT repeat or reuse ANY previously asked question in ANY form.
- Do NOT reuse the same underlying fact, event, or character detail.
- Treat all previously asked questions as permanently banned concepts.
"#;

/// The fun-facts prompt before its list of domains.
pub const FUN_FACTS_HEAD: &'static str = r#"
Task:
Generate exactly 100 unique, intellectually stimulating trivia questions based on the provided domain list.

Difficulty Level:
- Target Audience: 10th-grade education level and up.
- Challenge: Questions must be genuinely difficult. Avoid common knowledge, obvious answers, or basic pop culture. Aim for questions that would challenge educated adults in a competitive trivia setting.

Style Guidelines:
- Format: Use a professional, trivia-competition style (similar to Jeopardy! or Trivial Pursuit).
- Clarity: Questions must be direct and unambiguous. Avoid conversational filler or 'witty' setups.
- Answers: Answers should be concise. While they can be phrases if absolutely necessary for accuracy, prefer proper nouns, specific dates, or specific scientific terms.

Anti-Stupidity & Anti-Definition Rules:
- NEVER write a question that asks for the definition, purpose, or functional description of a common object. Do NOT ask "What is X?" or "What is X used for?".
- Answers must NEVER be a descriptive phrase or a functional explanation (e.g., "a projectile designed for impact").
- The answer must not be a word that is already contained within the question, and the question must not be a generic synonym of the answer.
- CRITICAL EXAMPLE OF WHAT NOT TO DO:
  * BAD QUESTION: "What is a pellet used for in a pellet gun?" (Answer: "A projectile for aerodynamic stability.") -> REASON: It is a functional definition of a common object with a descriptive answer.
  * GOOD QUESTION: "In 1886, William F. Markham invented this specific type of spring-piston air gun, made largely of maple wood, to sell alongside his wooden cisterns." (Answer: "The Daisy BB Gun.") -> REASON: It asks for a specific proper noun based on a historical fact.

Content Categories (Ensure a balanced mix of the following):
- Counterintuitive: Common misconceptions or surprising truths that most people would initially guess wrong.
- Quantitative: Specific measurements, dates, records, rankings, or durations.
- Logical Deduction: Facts that can be reasoned through via context clues and multi-step thought, not just recall.
- Academic/Niche: Deep-cut history, science, geography, arts, and human culture.

Domain Rules:
- Primary Source: Use the following list as a foundation for diversity: "#;

/// The fun-facts prompt after its list of domains.
pub const FUN_FACTS_TAIL: &'static str = r#".
- Expansion: You ARE encouraged to expand beyond this list. Incorporate history, famous people, significant places, and events not explicitly listed, provided they fit the categories above.
- Variety: Each question should ideally tackle a different specific topic or conceptual cluster.
- Safety: Avoid violent, sexual, disturbing, or fear-based content.

Novelty Rules:
- Do NOT repeat or reuse ANY previously asked question in ANY form.
- Do NOT reuse the same underlying fact, idea, theme, event, concept, or data point.
- Do NOT create a question that is a rephrasing, variation, or semantic equivalent of any previously asked question.
- Treat all previously asked questions as permanently banned concepts.
"#;

/// The riddles prompt, with `__TOPICS__` for the topics of the run.
pub const RIDDLES_TEMPLATE: &'static str = r#"
Tasks:
- Generate exactly 10 original, creative riddles.
- Provide one concise answer per riddle.
- Use the random topic list below as inspiration and spread coverage across multiple topics.
- Keep difficulty balanced: 50% should match the current fun/challenging level, and 50% should be noticeably harder.
- For the harder 50%, self-check each one at >=8/10 for cleverness, misdirection, and non-obvious deduction.

Content Rules:
- Riddles must be solvable, clear, and family-friendly.
- Avoid extreme obscurity or trick wording that makes the answer arbitrary.
- Answers should usually be short (1 to 4 words) and specific.
- Use a mix of concrete objects, nature, time, language, and everyday concepts.
- Avoid common stock riddles and overused patterns.
- Harder riddles should use layered clues, metaphor, and at least one subtle misdirection.
- Easier-half riddles should still avoid trivial one-clue giveaways.
- Random topics for this run:
__TOPICS__

Novelty Rules:
- Do NOT repeat or reuse ANY previously asked question in ANY form.
- Do NOT reuse the same underlying answer + clue pattern as any previously asked item.
- Do NOT create a paraphrase or near-duplicate of any previously asked riddle.
- Treat all previously asked questions as permanently banned concepts.

Output Rules:
- Return ONLY a JSON array of exactly 10 objects.
- Each object must contain fields 'question' and 'answer'.
- No markdown, no commentary, no code fences.
- Target split in this 10-item batch: 5 medium-hard and 5 hard.
"#;

/// The explanation prompt before the question and answer.
pub const EXPLANATION_HEAD: &'static str = "Task: Explain the trivia answer in a clearer, friendlier way.\n\
Question and answer context:\n";

/// The explanation prompt after the question and answer.
pub const EXPLANATION_TAIL: &'static str = "\n\n\
Write a concise but helpful explanation that:\n\
- names the subject plainly,\n\
- explains why the answer is correct,\n\
- adds a little extra context or a simple example,\n\
- stays factual and does not invent details.\n\n\
Keep it to a few short paragraphs so it is easy to scroll on a small screen.\n\
Return only valid JSON with a single string field named 'explanation'.";


/// `- question` lines, one per item.
pub open spec fn asked_lines(items: Seq<ItemView>) -> Seq<char>
    decreases items.len(),
{
    if items.len() == 0 {
        Seq::empty()
    } else {
        asked_lines(items.drop_last()) + "- "@ + items.last().question + "\n"@
    }
}

/// Questions listed in the block at most.
pub const MAX_ASKED: usize = 1000;

/// The block that bans the last (at most `MAX_ASKED`) previously asked
/// questions; empty where there are none.
pub open spec fn previously_asked_spec(items: Seq<ItemView>) -> Seq<char> {
    if items.len() == 0 {
        Seq::empty()
    } else {
        let n: int = if items.len() < MAX_ASKED {
            items.len() as int
        } else {
            MAX_ASKED as int
        };
        ASKED_HEADER@ + asked_lines(items.skip(items.len() - n))
    }
}

pub open spec fn bible_prompt_spec(
    items: Seq<ItemView>,
    books: Seq<Seq<char>>,
    chapters: Seq<Seq<char>>,
) -> Seq<char> {
    replace_all(
        replace_all(BIBLE_TEMPLATE@, "__BOOKS__"@, join(books, ", "@)),
        "__CHAPTERS__"@,
        join(chapters, ", "@),
    ) + previously_asked_spec(items)
}

pub open spec fn fun_facts_prompt_spec(items: Seq<ItemView>, domains: Seq<Seq<char>>) -> Seq<
    char,
> {
    FUN_FACTS_HEAD@ + join(domains, ", "@) + FUN_FACTS_TAIL@ + previously_asked_spec(items)
}

/// The topics as a list, one `- topic` line each.
pub open spec fn topic_lines(topics: Seq<Seq<char>>) -> Seq<Seq<char>> {
    topics.map_values(|t: Seq<char>| "- "@ + t)
}

pub open spec fn riddles_prompt_spec(items: Seq<ItemView>, topics: Seq<Seq<char>>) -> Seq<char> {
    replace_all(RIDDLES_TEMPLATE@, "__TOPICS__"@, join(topic_lines(topics), "\n"@))
        + previously_asked_spec(items)
}

pub fn json_output_contract() -> (r: &'static str)
    ensures
        r@ == JSON_OUTPUT_CONTRACT@,
{
    JSON_OUTPUT_CONTRACT
}

proof fn lemma_asked_lines_step(items: Seq<ItemView>, lo: int, i: int)
    requires
        0 <= lo <= i < items.len(),
    ensures
        asked_lines(items.subrange(lo, i + 1)) == asked_lines(items.subrange(lo, i)) + "- "@
            + items[i].question + "\n"@,
{
    assert(items.subrange(lo, i + 1).drop_last() =~= items.subrange(lo, i));
}

pub fn previously_asked_block(cached: &[TriviaItem]) -> (r: String)
    ensures
        r@ == previously_asked_spec(items_view(cached@)),
{
    if cached.len() == 0 {
        return String::new();
    }
    let n: usize = if cached.len() < MAX_ASKED {
        cached.len()
    } else {
        MAX_ASKED
    };
    let start: usize = cached.len() - n;
    let ghost iv = items_view(cached@);
    let mut block = String::from_str(ASKED_HEADER);
    let mut i = start;
    assert(iv.subrange(start as int, start as int) =~= Seq::<ItemView>::empty());
    while i < cached.len()
        invariant
            start <= i <= cached@.len(),
            iv == items_view(cached@),
            block@ == ASKED_HEADER@ + asked_lines(iv.subrange(start as int, i as int)),
        decreases cached@.len() - i,
    {
        proof {
            lemma_asked_lines_step(iv, start as int, i as int);
        }
        push_str(&mut block, "- ");
        push_str(&mut block, cached[i].question.as_str());
        push_str(&mut block, "\n");
        assert(block@ =~= ASKED_HEADER@ + asked_lines(iv.subrange(start as int, i + 1)));
        i = i + 1;
    }
    assert(iv.subrange(start as int, cached@.len() as int) =~= iv.skip(start as int));
    block
}

pub fn join_slice(parts: &[String], sep: &str) -> (r: String)
    ensures
        r@ == join(views(parts@), sep@),
{
    let mut v: Vec<String> = Vec::new();
    let mut i: usize = 0;
    while i < parts.len()
        invariant
            i <= parts@.len(),
            v@ == parts@.take(i as int),
        decreases parts@.len() - i,
    {
        v.push(parts[i].clone());
        assert(v@ =~= parts@.take(i + 1));
        i = i + 1;
    }
    assert(v@ =~= parts@);
    join_strings(&v, sep)
}

pub fn bible_prompt(cached: &[TriviaItem], books: &[String], chapters: &[String]) -> (r: String)
    ensures
        r@ == bible_prompt_spec(items_view(cached@), views(books@), views(chapters@)),
{
    let books_list = join_slice(books, ", ");
    let chapters_list = join_slice(chapters, ", ");
    proof {
        reveal_strlit("__BOOKS__");
        reveal_strlit("__CHAPTERS__");
    }
    let first = replace_str(BIBLE_TEMPLATE, "__BOOKS__", books_list.as_str());
    let mut prompt = replace_str(first.as_str(), "__CHAPTERS__", chapters_list.as_str());
    let block = previously_asked_block(cached);
    push_str(&mut prompt, block.as_str());
    prompt
}

pub fn fun_facts_prompt(cached: &[TriviaItem], domains: &[String]) -> (r: String)
    ensures
        r@ == fun_facts_prompt_spec(items_view(cached@), views(domains@)),
{
    let domain_list = join_slice(domains, ", ");
    let mut prompt = String::from_str(FUN_FACTS_HEAD);
    push_str(&mut prompt, domain_list.as_str());
    push_str(&mut prompt, FUN_FACTS_TAIL);
    let block = previously_asked_block(cached);
    push_str(&mut prompt, block.as_str());
    prompt
}

pub fn riddles_prompt(cached: &[TriviaItem], topics: &[String]) -> (r: String)
    ensures
        r@ == riddles_prompt_spec(items_view(cached@), views(topics@)),
{
    let mut lines: Vec<String> = Vec::new();
    let mut i: usize = 0;
    while i < topics.len()
        invariant
            i <= topics@.len(),
            views(lines@) == topic_lines(views(topics@)).take(i as int),
        decreases topics@.len() - i,
    {
        let mut line = String::from_str("- ");
        push_str(&mut line, topics[i].as_str());
        let ghost before = lines@;
        let ghost lv = line@;
        proof {
            assert(views(topics@)[i as int] == topics@[i as int]@);
            assert(topic_lines(views(topics@))[i as int] == "- "@ + topics@[i as int]@);
            assert(topic_lines(views(topics@)).take(i + 1) =~= topic_lines(views(topics@)).take(
                i as int,
            ).push(lv));
        }
        lines.push(line);
        assert(views(lines@) =~= views(before).push(lv));
        i = i + 1;
    }
    assert(topic_lines(views(topics@)).take(topics@.len() as int) =~= topic_lines(views(topics@)));
    let topic_list = join_strings(&lines, "\n");
    proof {
        reveal_strlit("__TOPICS__");
    }
    let mut prompt = replace_str(RIDDLES_TEMPLATE, "__TOPICS__", topic_list.as_str());
    let block = previously_asked_block(cached);
    push_str(&mut prompt, block.as_str());
    prompt
}

/// The full prompt for a batch: the output requirement, a blank line, then the
/// subject's prompt.
pub open spec fn batch_prompt_spec(base: Seq<char>) -> Seq<char> {
    JSON_OUTPUT_CONTRACT@ + "\n\n"@ + base
}

pub fn batch_prompt(base: &str) -> (r: String)
    ensures
        r@ == batch_prompt_spec(base@),
{
    let mut prompt = String::from_str(JSON_OUTPUT_CONTRACT);
    push_str(&mut prompt, "\n\n");
    push_str(&mut prompt, base);
    prompt
}


/// The prompt that asks to explain an answer, around the question and answer
/// as pretty JSON.
pub fn explanation_prompt(request: &ExplanationRequest) -> (r: String)
    ensures
        r@ == EXPLANATION_HEAD@ + pretty_question_answer(request.question@, request.answer@)
            + EXPLANATION_TAIL@,
{
    let context = match pretty_json_question_answer(
        request.question.as_str(),
        request.answer.as_str(),
    ) {
        Ok(c) => c,
        Err(_) => {
            proof {
                assert(false);
            }
            String::new()
        },
    };
    let mut prompt = String::from_str(EXPLANATION_HEAD);
    push_str(&mut prompt, context.as_str());
    push_str(&mut prompt, EXPLANATION_TAIL);
    assert(prompt@ == EXPLANATION_HEAD@ + context@ + EXPLANATION_TAIL@);
    prompt
}


/// The request to deduplicate a batch of cached questions, before the banned
/// questions.
pub const DEDUP_QUESTIONS_HEAD: &'static str = "Return valid JSON only.\n\
You are deduplicating trivia questions.\n\
Previously accepted questions are a permanent ban list.\n\
Candidate questions may also contain duplicates of each other.\n\
Remove any candidate question that is a semantic duplicate, paraphrase, same fact, same underlying concept, or same knowledge point as any banned question or any other candidate question.\n\
Keep the earliest candidate when two candidates overlap.\n\
Return ONLY the surviving candidate questions as a JSON array of strings, preserving each surviving question's exact original text.\n\
Do not rewrite, summarize, normalize, or reformat any question.\n\
\n\
BANNED_QUESTIONS_JSON:\n";

/// Between the banned questions and the candidate questions.
pub const DEDUP_QUESTIONS_MID: &'static str = "\n\
\n\
CANDIDATE_QUESTIONS_JSON:\n";

/// The request to deduplicate newly generated items, before the banned
/// questions.
pub const DEDUP_ITEMS_HEAD: &'static str = "Return valid JSON only.\n\
You are deduplicating newly generated trivia questions.\n\
Remove any candidate that overlaps with the banned list or with another candidate by fact, concept, event, person, object, data point, or knowledge point, even if phrased differently.\n\
Keep the earliest candidate when two candidates overlap.\n\
Return ONLY the surviving candidate items as a JSON array of objects with string fields 'question' and 'answer'.\n\
Preserve the exact original question and answer text for every surviving item.\n\
Do not rewrite, summarize, or normalize the text.\n\
\n\
BANNED_QUESTIONS_JSON:\n";

/// Between the banned questions and the candidate items.
pub const DEDUP_ITEMS_MID: &'static str = "\n\
\n\
CANDIDATE_ITEMS_JSON:\n";


pub open spec fn dedup_questions_prompt_spec(banned_json: Seq<char>, candidates_json: Seq<char>) -> Seq<
    char,
> {
    DEDUP_QUESTIONS_HEAD@ + banned_json + DEDUP_QUESTIONS_MID@ + candidates_json
}

pub open spec fn dedup_items_prompt_spec(banned_json: Seq<char>, items_json: Seq<char>) -> Seq<
    char,
> {
    DEDUP_ITEMS_HEAD@ + banned_json + DEDUP_ITEMS_MID@ + items_json
}

/// The request to deduplicate a batch of candidate questions against the
/// banned ones, both written as pretty JSON arrays. Writing strings as JSON
/// does not fail, so this is always `Ok`; the error type stays for the
/// callers that pass errors on.
pub fn dedup_questions_prompt(seen: &[String], candidates: &[String]) -> (r: Result<String, String>)
    ensures
        r matches Ok(p) && p@ == dedup_questions_prompt_spec(
            pretty_string_array(views(seen@)),
            pretty_string_array(views(candidates@)),
        ),
{
    let banned = match pretty_json_strings(seen) {
        Ok(b) => b,
        Err(e) => {
            let mut m = String::from_str("Failed to serialize seen questions: ");
            let t = json_error_text(&e);
            push_str(&mut m, t.as_str());
            assert(m@ == "Failed to serialize seen questions: "@ + t@);
            return Err(m);
        },
    };
    let cands = match pretty_json_strings(candidates) {
        Ok(c) => c,
        Err(e) => {
            let mut m = String::from_str("Failed to serialize candidate questions: ");
            let t = json_error_text(&e);
            push_str(&mut m, t.as_str());
            assert(m@ == "Failed to serialize candidate questions: "@ + t@);
            return Err(m);
        },
    };
    let mut p = String::from_str(DEDUP_QUESTIONS_HEAD);
    push_str(&mut p, banned.as_str());
    push_str(&mut p, DEDUP_QUESTIONS_MID);
    push_str(&mut p, cands.as_str());
    Ok(p)
}

/// The request to deduplicate newly generated items (given as JSON text)
/// against the banned questions, written as a pretty JSON array. Writing
/// strings as JSON does not fail, so this is always `Ok`.
pub fn dedup_items_prompt(seen: &[String], items_json: &str) -> (r: Result<String, String>)
    ensures
        r matches Ok(p) && p@ == dedup_items_prompt_spec(
            pretty_string_array(views(seen@)),
            items_json@,
        ),
{
    let banned = match pretty_json_strings(seen) {
        Ok(b) => b,
        Err(e) => {
            let mut m = String::from_str("Failed to serialize seen questions: ");
            let t = json_error_text(&e);
            push_str(&mut m, t.as_str());
            assert(m@ == "Failed to serialize seen questions: "@ + t@);
            return Err(m);
        },
    };
    let mut p = String::from_str(DEDUP_ITEMS_HEAD);
    push_str(&mut p, banned.as_str());
    push_str(&mut p, DEDUP_ITEMS_MID);
    push_str(&mut p, items_json);
    Ok(p)
}

} // verus!
