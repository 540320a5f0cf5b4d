use kiosk::text::{
    decimal_string, join_strings, nonblank_lines_of, parse_usize, replace_str, trim_str,
    IntParseError,
};
use kiosk::trivia::model::{ExplanationRequest, TriviaItem};
use kiosk::trivia::prompts::{
    bible_prompt, dedup_items_prompt, dedup_questions_prompt, explanation_prompt,
    fun_facts_prompt, json_output_contract, previously_asked_block, riddles_prompt,
};
use kiosk::trivia::scope::{
    chapter_pool, get_bible_scope, get_domains, get_riddle_topics, load_bible_book_chapter_counts,
};

fn s(v: &[&str]) -> Vec<String> {
    v.iter().map(|x| x.to_string()).collect()
}

fn item(q: &str) -> TriviaItem {
    TriviaItem { question: q.to_string(), answer: String::new(), explanation: None }
}

#[test]
fn trimming_and_lines() {
    assert_eq!(trim_str("\u{3000} a b \u{85}\n"), "a b");
    assert_eq!(trim_str("   "), "");
    assert_eq!(nonblank_lines_of("x\r\n\n y \n"), s(&["x", "y"]));
}

#[test]
fn joining_and_replacing() {
    assert_eq!(join_strings(&s(&["a", "b", "c"]), ", "), "a, b, c");
    assert_eq!(join_strings(&vec![], ", "), "");
    assert_eq!(replace_str("aXXbXXXc", "XX", "-"), "a-b-Xc");
    assert_eq!(replace_str("abc", "abcd", "-"), "abc");
}

#[test]
fn decimals() {
    assert_eq!(decimal_string(0), "0");
    assert_eq!(decimal_string(1189), "1189");
    assert_eq!(parse_usize("42"), Ok(42));
    assert_eq!(parse_usize("+7"), Ok(7));
    assert_eq!(parse_usize(""), Err(IntParseError::Empty));
    assert_eq!(parse_usize("+"), Err(IntParseError::InvalidDigit));
    assert_eq!(parse_usize("-1"), Err(IntParseError::InvalidDigit));
    assert_eq!(parse_usize("1a"), Err(IntParseError::InvalidDigit));
    assert_eq!(parse_usize("99999999999999999999999"), Err(IntParseError::PosOverflow));
    assert_eq!(parse_usize("99999999999999999999999x"), Err(IntParseError::PosOverflow));
    assert_eq!(parse_usize(&usize::MAX.to_string()), Ok(usize::MAX));
}

#[test]
fn chapter_counts_parse() {
    let good = "A|1\nB | 2\n\n  C|3  \nD|4\nE|5";
    let e = load_bible_book_chapter_counts(good).unwrap();
    assert_eq!(e[1], ("B".to_string(), 2));
    assert_eq!(e.len(), 5);
    let pool = chapter_pool(&e);
    assert_eq!(pool.len(), 15);
    assert_eq!(pool[0], "A:1");
    assert_eq!(pool[2], "B:2");
    assert_eq!(
        load_bible_book_chapter_counts("A|1\n|3").unwrap_err(),
        "Invalid bible chapter-count line 2"
    );
    assert_eq!(load_bible_book_chapter_counts("A").unwrap_err(), "Missing chapter count on line 1");
    assert_eq!(load_bible_book_chapter_counts("A| ").unwrap_err(), "Missing chapter count on line 1");
    assert_eq!(load_bible_book_chapter_counts("A|1|2").unwrap_err(), "Too many fields on line 1");
    assert_eq!(
        load_bible_book_chapter_counts("\nA|x").unwrap_err(),
        "Invalid chapter count on line 2: invalid digit found in string"
    );
    assert_eq!(
        load_bible_book_chapter_counts("A|0").unwrap_err(),
        "Chapter count must be > 0 on line 1"
    );
    assert_eq!(
        load_bible_book_chapter_counts("A|1\nB|2").unwrap_err(),
        "Bible chapter-count asset has fewer than 5 books"
    );
}

#[test]
fn scopes() {
    let (books, chapters) = get_bible_scope("A|10\nB|10\nC|10\nD|10\nE|10\nF|10").unwrap();
    assert_eq!(books.len(), 5);
    assert_eq!(chapters.len(), 20);
    assert!(chapters.iter().all(|c| c.contains(':')));
    assert_eq!(
        get_bible_scope("A|1\nB|1\nC|1\nD|1\nE|1").unwrap_err(),
        "Bible chapter pool has fewer than 20 entries"
    );
    let words = get_domains("one\ntwo\n").unwrap();
    assert_eq!(words.len(), 2);
    assert_eq!(get_domains("").unwrap_err(), "dictionary-words.txt is empty");
    let many: String = (0..150).map(|i| format!("w{}\n", i)).collect();
    assert_eq!(get_domains(&many).unwrap().len(), 100);
    let topics = get_riddle_topics("[\" a \", \"\", \"b\"]").unwrap();
    let mut sorted = topics.clone();
    sorted.sort();
    assert_eq!(sorted, s(&[" a ", "b"]));
    assert_eq!(get_riddle_topics("[\"  \"]").unwrap_err(), "riddle-topics.json has no usable topics");
    assert!(get_riddle_topics("not json").unwrap_err().starts_with("Failed to parse riddle-topics.json: "));
    let t: Vec<String> = (0..30).map(|i| format!("t{}", i)).collect();
    let json = format!("[{}]", t.iter().map(|x| format!("\"{}\"", x)).collect::<Vec<_>>().join(","));
    assert_eq!(get_riddle_topics(&json).unwrap().len(), 16);
}

#[test]
fn asked_block() {
    assert_eq!(previously_asked_block(&[]), "");
    let b = previously_asked_block(&[item("one"), item("two")]);
    assert!(b.starts_with("\n\nDo NOT repeat or reuse ANY of the following in ANY form:\n- Do NOT repeat"));
    assert!(b.ends_with("Previously asked items:\n- one\n- two\n"));
    let many: Vec<TriviaItem> = (0..1005).map(|i| item(&format!("q{}", i))).collect();
    let b = previously_asked_block(&many);
    assert!(!b.contains("- q4\n"));
    assert!(b.contains("- q5\n"));
    assert!(b.ends_with("- q1004\n"));
}

#[test]
fn batch_prompts() {
    let p = bible_prompt(&[], &s(&["Ruth", "Job"]), &s(&["Ruth:1", "Job:2"]));
    assert!(p.contains("Books focus (5 random books): Ruth, Job\n"));
    assert!(p.contains("Book:Chapter targets): Ruth:1, Job:2\n"));
    let p = fun_facts_prompt(&[item("q")], &s(&["x", "y"]));
    assert!(p.contains("Use the following list as a foundation for diversity: x, y."));
    assert!(p.ends_with("- q\n"));
    let p = riddles_prompt(&[], &s(&["time", "sea"]));
    assert!(p.contains("Random topics for this run:\n- time\n- sea\n"));
    assert!(json_output_contract().ends_with("string fields 'question' and 'answer'."));
}

#[test]
fn explanation_and_dedup_prompts() {
    let p = explanation_prompt(&ExplanationRequest {
        question: "Who \"built\" it?".to_string(),
        answer: "Noah".to_string(),
    });
    assert!(p.starts_with("Task: Explain the trivia answer in a clearer, friendlier way.\n"));
    assert!(p.contains("{\n  \"answer\": \"Noah\",\n  \"question\": \"Who \\\"built\\\" it?\"\n}"));
    assert!(p.ends_with("named 'explanation'."));
    let p = dedup_questions_prompt(&s(&["a"]), &s(&["b", "c"])).unwrap();
    assert!(p.contains("BANNED_QUESTIONS_JSON:\n[\n  \"a\"\n]\n\nCANDIDATE_QUESTIONS_JSON:\n[\n  \"b\",\n  \"c\"\n]"));
    let p = dedup_items_prompt(&[], "[]").unwrap();
    assert!(p.ends_with("BANNED_QUESTIONS_JSON:\n[]\n\nCANDIDATE_ITEMS_JSON:\n[]"));
}

#[test]
fn json_escapes_in_prompts() {
    let p = dedup_questions_prompt(&[], &s(&["a\"b\\c", "tab\there\nnew\u{1}\u{1f}\u{8}\u{c}\r", "é/\u{7f}"])).unwrap();
    assert!(p.ends_with(
        "CANDIDATE_QUESTIONS_JSON:\n[\n  \"a\\\"b\\\\c\",\n  \"tab\\there\\nnew\\u0001\\u001f\\b\\f\\r\",\n  \"é/\u{7f}\"\n]"
    ));
    let p = explanation_prompt(&ExplanationRequest { question: "".to_string(), answer: "x\ny".to_string() });
    assert!(p.contains("{\n  \"answer\": \"x\\ny\",\n  \"question\": \"\"\n}"));
}
