//! Finding the JSON in a reply of the model, and the calls into `serde_json`
//! that read or write JSON text made of strings only.
use vstd::prelude::*;
use std::collections::BTreeMap;
use crate::text::{chars_of, push_str, string_from_range, trim, trim_chars, views};
use crate::trivia::input::opt_to_seq;

verus! {

#[verifier::external_type_specification]
#[verifier::external_body]
pub struct ExJsonError(serde_json::Error);

/// What `serde_json::from_str::<Vec<String>>` gives for a text: the strings
/// of a JSON array of strings, or `None` where the text is no such array.
pub uninterp spec fn json_string_array(text: Seq<char>) -> Option<Seq<Seq<char>>>;

/// A hexadecimal digit as serde_json writes it (lower case).
pub open spec fn hex_digit(n: int) -> char {
    if n < 10 {
        (48 + n) as char
    } else {
        (87 + n) as char
    }
}

/// How serde_json writes one character inside a JSON string: `"` and `\`
/// behind a backslash; backspace, tab, line feed, form feed and carriage
/// return as `\b`, `\t`, `\n`, `\f`, `\r`; the other control characters
/// below 0x20 as `\u00` and two hex digits; every other character as itself.
pub open spec fn json_escape_char(c: char) -> Seq<char> {
    let n = c as int;
    if c == '"' {
        seq!['\\', '"']
    } else if c == '\\' {
        seq!['\\', '\\']
    } else if n == 8 {
        seq!['\\', 'b']
    } else if n == 9 {
        seq!['\\', 't']
    } else if n == 10 {
        seq!['\\', 'n']
    } else if n == 12 {
        seq!['\\', 'f']
    } else if n == 13 {
        seq!['\\', 'r']
    } else if n < 32 {
        seq!['\\', 'u', '0', '0', hex_digit(n / 16), hex_digit(n % 16)]
    } else {
        seq![c]
    }
}

/// The characters of a string, each escaped as serde_json does.
pub open spec fn json_escape(s: Seq<char>) -> Seq<char>
    decreases s.len(),
{
    if s.len() == 0 {
        Seq::empty()
    } else {
        json_escape(s.drop_last()) + json_escape_char(s.last())
    }
}

/// A string as a JSON string literal.
pub open spec fn json_quoted(s: Seq<char>) -> Seq<char> {
    seq!['"'] + json_escape(s) + seq!['"']
}

/// The elements of a pretty JSON array of strings, each on its own line
/// indented by two spaces, separated by commas.
pub open spec fn pretty_elements(v: Seq<Seq<char>>) -> Seq<char>
    decreases v.len(),
{
    if v.len() == 0 {
        Seq::empty()
    } else {
        pretty_elements(v.drop_last()) + (if v.len() == 1 {
            "\n  "@
        } else {
            ",\n  "@
        }) + json_quoted(v.last())
    }
}

/// What `serde_json::to_string_pretty` writes for a JSON array of strings:
/// `[]` when empty, else the elements on their own lines between `[` and `]`.
pub open spec fn pretty_string_array(v: Seq<Seq<char>>) -> Seq<char> {
    if v.len() == 0 {
        "[]"@
    } else {
        "["@ + pretty_elements(v) + "\n]"@
    }
}

/// What `serde_json::to_string_pretty` writes for the JSON object with the
/// string fields `question` and `answer`: the keys in sorted order, one per
/// line, indented by two spaces.
pub open spec fn pretty_question_answer(question: Seq<char>, answer: Seq<char>) -> Seq<char> {
    "{\n  \"answer\": "@ + json_quoted(answer) + ",\n  \"question\": "@ + json_quoted(question)
        + "\n}"@
}

/// `serde_json::from_str::<Vec<String>>(text)`: the result is a function of
/// the text alone, named `json_string_array`.
#[verifier::external_body]
pub(crate) fn parse_json_string_array(text: &str) -> (r: Result<Vec<String>, serde_json::Error>)
    ensures
        match r {
            Ok(v) => json_string_array(text@) == Some(views(v@)),
            Err(_) => json_string_array(text@) is None,
        },
{
    serde_json::from_str::<Vec<String>>(text)
}

/// The message of a `serde_json::Error` (its `Display`); nothing is stated of it.
#[verifier::external_body]
pub(crate) fn json_error_text(e: &serde_json::Error) -> String {
    e.to_string()
}

/// `serde_json::to_string_pretty` of the object `{"question": .., "answer": ..}`
/// (serde_json's map keeps its keys sorted, as a `BTreeMap` does). Its
/// documentation gives two causes of failure, a `Serialize` impl that fails and
/// a map key that is not a string; neither can happen for a map from strings to
/// strings, so it succeeds with the text `pretty_question_answer`.
#[verifier::external_body]
pub(crate) fn pretty_json_question_answer(question: &str, answer: &str) -> (r: Result<
    String,
    serde_json::Error,
>)
    ensures
        r is Ok,
        r matches Ok(s) ==> s@ == pretty_question_answer(question@, answer@),
{
    serde_json::to_string_pretty(&BTreeMap::from([("question", question), ("answer", answer)]))
}

/// `serde_json::to_string_pretty` of a list of strings. Its documentation
/// gives two causes of failure, a `Serialize` impl that fails and a map key
/// that is not a string; neither can happen for strings, so it succeeds with
/// the text `pretty_string_array` of the strings.
#[verifier::external_body]
pub(crate) fn pretty_json_strings(v: &[String]) -> (r: Result<String, serde_json::Error>)
    ensures
        r is Ok,
        r matches Ok(s) ==> s@ == pretty_string_array(views(v@)),
{
    serde_json::to_string_pretty(v)
}

/// The first position of `c` in `s` (`str::find`, counted in characters).
pub open spec fn find_char(s: Seq<char>, c: char) -> Option<int>
    decreases s.len(),
{
    if s.len() == 0 {
        None
    } else if s[0] == c {
        Some(0)
    } else {
        match find_char(s.drop_first(), c) {
            Some(i) => Some(i + 1),
            None => None,
        }
    }
}

/// The last position of `c` in `s` (`str::rfind`, counted in characters).
pub open spec fn rfind_char(s: Seq<char>, c: char) -> Option<int>
    decreases s.len(),
{
    if s.len() == 0 {
        None
    } else if s.last() == c {
        Some(s.len() - 1)
    } else {
        rfind_char(s.drop_last(), c)
    }
}

/// From the first `open` to the last `close`, where the last `close` comes
/// after the first `open`.
pub open spec fn bracketed(s: Seq<char>, open: char, close: char) -> Option<Seq<char>> {
    match (find_char(s, open), rfind_char(s, close)) {
        (Some(a), Some(b)) => if b > a {
            Some(s.subrange(a, b + 1))
        } else {
            None
        },
        _ => None,
    }
}

/// The texts tried in turn as JSON: the trimmed reply, then the span of its
/// outermost brackets, then that of its outermost braces.
pub open spec fn json_candidates_spec(s: Seq<char>) -> Seq<Seq<char>> {
    seq![trim(s)] + opt_to_seq(bracketed(s, '[', ']')) + opt_to_seq(bracketed(s, '{', '}'))
}

/// The array of strings that the first candidate holds that is one.
pub open spec fn first_string_array(c: Seq<Seq<char>>) -> Option<Seq<Seq<char>>>
    decreases c.len(),
{
    if c.len() == 0 {
        None
    } else {
        match json_string_array(c[0]) {
            Some(v) => Some(v),
            None => first_string_array(c.drop_first()),
        }
    }
}

pub open spec fn no_json_message_spec(s: Seq<char>) -> Seq<char> {
    "No valid JSON found in response: "@ + s
}

proof fn lemma_find_char(s: Seq<char>, c: char, i: int)
    requires
        0 <= i <= s.len(),
        forall|j: int| 0 <= j < i ==> s[j] != c,
    ensures
        i < s.len() && s[i] == c ==> find_char(s, c) == Some(i),
        i == s.len() ==> find_char(s, c) is None,
    decreases i,
{
    if i > 0 {
        let t = s.drop_first();
        assert forall|j: int| 0 <= j < i - 1 implies t[j] != c by {
            assert(t[j] == s[j + 1]);
        }
        lemma_find_char(t, c, i - 1);
    } else if s.len() > 0 && s[0] == c {
    }
}

proof fn lemma_rfind_char(s: Seq<char>, c: char, k: int)
    requires
        0 <= k <= s.len(),
        forall|j: int| k <= j < s.len() ==> s[j] != c,
    ensures
        k > 0 && s[k - 1] == c ==> rfind_char(s, c) == Some(k - 1),
        k == 0 ==> rfind_char(s, c) is None,
    decreases s.len() - k,
{
    if k < s.len() {
        let t = s.drop_last();
        assert forall|j: int| k <= j < t.len() implies t[j] != c by {
            assert(t[j] == s[j]);
        }
        lemma_rfind_char(t, c, k);
    }
}

fn find_in(v: &Vec<char>, c: char) -> (r: Option<usize>)
    ensures
        match r {
            Some(i) => find_char(v@, c) == Some(i as int),
            None => find_char(v@, c) is None,
        },
{
    let mut i: usize = 0;
    while i < v.len()
        invariant
            i <= v@.len(),
            forall|j: int| 0 <= j < i ==> v@[j] != c,
        decreases v@.len() - i,
    {
        if v[i] == c {
            proof {
                lemma_find_char(v@, c, i as int);
            }
            return Some(i);
        }
        i = i + 1;
    }
    proof {
        lemma_find_char(v@, c, i as int);
    }
    None
}

fn rfind_in(v: &Vec<char>, c: char) -> (r: Option<usize>)
    ensures
        match r {
            Some(i) => rfind_char(v@, c) == Some(i as int) && i < v.len(),
            None => rfind_char(v@, c) is None,
        },
{
    let mut k: usize = v.len();
    while k > 0
        invariant
            k <= v@.len(),
            forall|j: int| k <= j < v@.len() ==> v@[j] != c,
        decreases k,
    {
        if v[k - 1] == c {
            proof {
                lemma_rfind_char(v@, c, k as int);
            }
            return Some(k - 1);
        }
        k = k - 1;
    }
    proof {
        lemma_rfind_char(v@, c, 0);
    }
    None
}

fn bracketed_in(v: &Vec<char>, open: char, close: char) -> (r: Option<String>)
    ensures
        match (r, bracketed(v@, open, close)) {
            (Some(x), Some(y)) => x@ == y,
            (None, None) => true,
            _ => false,
        },
{
    match (find_in(v, open), rfind_in(v, close)) {
        (Some(a), Some(b)) => {
            if b > a {
                Some(string_from_range(v, a, b + 1))
            } else {
                None
            }
        },
        _ => None,
    }
}

/// The texts to try as JSON, in order.
pub fn json_candidates(text: &str) -> (r: Vec<String>)
    ensures
        views(r@) == json_candidates_spec(text@),
{
    let v = chars_of(text);
    let mut r: Vec<String> = Vec::new();
    r.push(trim_chars(&v));
    let ghost r1 = r@;
    let br = bracketed_in(&v, '[', ']');
    match br {
        Some(x) => r.push(x),
        None => {},
    }
    let ghost r2 = r@;
    assert(views(r2) =~= seq![trim(text@)] + opt_to_seq(bracketed(text@, '[', ']')));
    let bc = bracketed_in(&v, '{', '}');
    match bc {
        Some(x) => r.push(x),
        None => {},
    }
    assert(views(r@) =~= views(r2) + opt_to_seq(bracketed(text@, '{', '}')));
    r
}

/// The message where no candidate parses.
pub fn no_json_message(text: &str) -> (r: String)
    ensures
        r@ == no_json_message_spec(text@),
{
    let mut m = String::from_str("No valid JSON found in response: ");
    push_str(&mut m, text);
    m
}

/// Reads a reply of the model as an array of strings: the first candidate
/// that is one, else the error message.
pub fn parse_gemini_string_array(text: &str) -> (r: Result<Vec<String>, String>)
    ensures
        match (r, first_string_array(json_candidates_spec(text@))) {
            (Ok(v), Some(w)) => views(v@) == w,
            (Err(m), None) => m@ == no_json_message_spec(text@),
            _ => false,
        },
{
    let cands = json_candidates(text);
    let ghost c = views(cands@);
    let mut i: usize = 0;
    assert(c.skip(0) =~= c);
    while i < cands.len()
        invariant
            i <= cands@.len(),
            c == views(cands@),
            c == json_candidates_spec(text@),
            first_string_array(c) == first_string_array(c.skip(i as int)),
        decreases cands@.len() - i,
    {
        assert(c.skip(i as int)[0] == cands@[i as int]@);
        assert(c.skip(i as int).drop_first() =~= c.skip(i + 1));
        match parse_json_string_array(cands[i].as_str()) {
            Ok(v) => {
                return Ok(v);
            },
            Err(_) => {},
        }
        i = i + 1;
    }
    assert(c.skip(i as int).len() == 0);
    Err(no_json_message(text))
}

} // verus!
