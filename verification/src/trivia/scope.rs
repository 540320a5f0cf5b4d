//! The random scope of a batch prompt: Bible books and chapters, dictionary
//! words, riddle topics, read from the game's asset texts.
use vstd::prelude::*;
use crate::random::{is_pick, shuffle_truncate};
use crate::text::{
    trim_str, chars_of, decimal, decimal_string, nonblank_lines, nonblank_lines_of, parse_usize,
    parse_usize_spec, push_str, split_chars, split_on, trim, trim_chars, views, IntParseError,
};
use crate::trivia::json::{json_error_text, json_string_array, parse_json_string_array};

verus! {

/// Books in the scope of a Bible batch.
pub const SCOPE_BOOKS: usize = 5;

/// Chapters in the scope of a Bible batch.
pub const SCOPE_CHAPTERS: usize = 20;

/// Dictionary words in the scope of a fun-facts batch, at most.
pub const SCOPE_DOMAINS: usize = 100;

/// Riddle topics in the scope of a riddles batch, at most.
pub const SCOPE_TOPICS: usize = 16;

/// The message of each kind of integer error (`ParseIntError`'s `Display`).
pub open spec fn int_error_text(e: IntParseError) -> Seq<char> {
    match e {
        IntParseError::Empty => "cannot parse integer from empty string"@,
        IntParseError::InvalidDigit => "invalid digit found in string"@,
        IntParseError::PosOverflow => "number too large to fit in target type"@,
    }
}

/// One line `Book | count` of the chapter-count asset, numbered `line_no`
/// from 1: `None` for a blank line, else the entry or the error.
pub open spec fn count_line(line: Seq<char>, line_no: nat) -> Option<
    Result<(Seq<char>, nat), Seq<char>>,
> {
    let t = trim(line);
    if t.len() == 0 {
        None
    } else {
        let parts = split_on(t, '|');
        let book = trim(parts[0]);
        if book.len() == 0 {
            Some(Err("Invalid bible chapter-count line "@ + decimal(line_no)))
        } else if parts.len() < 2 || trim(parts[1]).len() == 0 {
            Some(Err("Missing chapter count on line "@ + decimal(line_no)))
        } else if parts.len() > 2 {
            Some(Err("Too many fields on line "@ + decimal(line_no)))
        } else {
            match parse_usize_spec(trim(parts[1])) {
                Err(e) => Some(
                    Err("Invalid chapter count on line "@ + decimal(line_no) + ": "@
                        + int_error_text(e)),
                ),
                Ok(n) => if n == 0 {
                    Some(Err("Chapter count must be > 0 on line "@ + decimal(line_no)))
                } else {
                    Some(Ok((book, n)))
                },
            }
        }
    }
}

/// The entries of the lines, or the error of the first line that has one.
pub open spec fn count_lines(lines: Seq<Seq<char>>) -> Result<Seq<(Seq<char>, nat)>, Seq<char>>
    decreases lines.len(),
{
    if lines.len() == 0 {
        Ok(Seq::empty())
    } else {
        match count_lines(lines.drop_last()) {
            Err(e) => Err(e),
            Ok(v) => match count_line(lines.last(), lines.len()) {
                None => Ok(v),
                Some(Err(m)) => Err(m),
                Some(Ok(p)) => Ok(v.push(p)),
            },
        }
    }
}

/// The chapter-count asset read in full: at least five books, or the error.
pub open spec fn bible_counts_spec(contents: Seq<char>) -> Result<
    Seq<(Seq<char>, nat)>,
    Seq<char>,
> {
    match count_lines(split_on(contents, '\n')) {
        Err(e) => Err(e),
        Ok(v) => if v.len() < SCOPE_BOOKS {
            Err("Bible chapter-count asset has fewer than 5 books"@)
        } else {
            Ok(v)
        },
    }
}

pub open spec fn entries_view(v: Seq<(String, usize)>) -> Seq<(Seq<char>, nat)> {
    v.map_values(|p: (String, usize)| (p.0@, p.1 as nat))
}

/// `Book:1` .. `Book:count`.
pub open spec fn chapter_refs(book: Seq<char>, count: nat) -> Seq<Seq<char>>
    decreases count,
{
    if count == 0 {
        Seq::empty()
    } else {
        chapter_refs(book, (count - 1) as nat).push(book + ":"@ + decimal(count))
    }
}

/// Every chapter of every book, book by book.
pub open spec fn chapter_pool_spec(entries: Seq<(Seq<char>, nat)>) -> Seq<Seq<char>>
    decreases entries.len(),
{
    if entries.len() == 0 {
        Seq::empty()
    } else {
        chapter_pool_spec(entries.drop_last()) + chapter_refs(
            entries.last().0,
            entries.last().1,
        )
    }
}

pub fn int_error_message(e: IntParseError) -> (r: String)
    ensures
        r@ == int_error_text(e),
{
    match e {
        IntParseError::Empty => String::from_str("cannot parse integer from empty string"),
        IntParseError::InvalidDigit => String::from_str("invalid digit found in string"),
        IntParseError::PosOverflow => String::from_str("number too large to fit in target type"),
    }
}

fn numbered_message(prefix: &str, line_no: usize) -> (r: String)
    ensures
        r@ == prefix@ + decimal(line_no as nat),
{
    let mut m = String::from_str(prefix);
    let n = decimal_string(line_no);
    push_str(&mut m, n.as_str());
    m
}

/// Reads one line of the chapter-count asset.
fn read_count_line(line: &Vec<char>, line_no: usize) -> (r: Option<Result<(String, usize), String>>)
    ensures
        match (r, count_line(line@, line_no as nat)) {
            (None, None) => true,
            (Some(Ok(p)), Some(Ok(q))) => p.0@ == q.0 && p.1 as nat == q.1,
            (Some(Err(m)), Some(Err(n))) => m@ == n,
            _ => false,
        },
{
    let t = trim_chars(line);
    if t.as_str().is_empty() {
        return None;
    }
    let tv = chars_of(t.as_str());
    let parts = split_chars(&tv, '|');
    proof {
        crate::text::lemma_split_on_len(t@, '|');
    }
    let book = trim_chars(&parts[0]);
    if book.as_str().is_empty() {
        return Some(Err(numbered_message("Invalid bible chapter-count line ", line_no)));
    }
    if parts.len() < 2 {
        return Some(Err(numbered_message("Missing chapter count on line ", line_no)));
    }
    let count_str = trim_chars(&parts[1]);
    if count_str.as_str().is_empty() {
        return Some(Err(numbered_message("Missing chapter count on line ", line_no)));
    }
    if parts.len() > 2 {
        return Some(Err(numbered_message("Too many fields on line ", line_no)));
    }
    match parse_usize(count_str.as_str()) {
        Err(e) => {
            let mut m = numbered_message("Invalid chapter count on line ", line_no);
            push_str(&mut m, ": ");
            let text = int_error_message(e);
            push_str(&mut m, text.as_str());
            Some(Err(m))
        },
        Ok(n) => {
            if n == 0 {
                Some(Err(numbered_message("Chapter count must be > 0 on line ", line_no)))
            } else {
                Some(Ok((book, n)))
            }
        },
    }
}

/// Reads the chapter-count asset: one `Book | count` line per book.
pub fn load_bible_book_chapter_counts(contents: &str) -> (r: Result<Vec<(String, usize)>, String>)
    ensures
        match (r, bible_counts_spec(contents@)) {
            (Ok(v), Ok(w)) => entries_view(v@) == w,
            (Err(m), Err(n)) => m@ == n,
            _ => false,
        },
{
    let v = chars_of(contents);
    let lines = split_chars(&v, '\n');
    let ghost ls = split_on(contents@, '\n');
    let mut out: Vec<(String, usize)> = Vec::new();
    let mut idx: usize = 0;
    assert(ls.take(0) =~= Seq::<Seq<char>>::empty());
    assert(entries_view(out@) =~= Seq::<(Seq<char>, nat)>::empty());
    while idx < lines.len()
        invariant
            idx <= lines@.len(),
            ls == split_on(contents@, '\n'),
            lines@.len() == ls.len(),
            forall|k: int| 0 <= k < lines@.len() ==> #[trigger] lines@[k]@ == ls[k],
            count_lines(ls.take(idx as int)) == Ok::<Seq<(Seq<char>, nat)>, Seq<char>>(
                entries_view(out@),
            ),
        decreases lines@.len() - idx,
    {
        proof {
            assert(ls.take(idx + 1).drop_last() =~= ls.take(idx as int));
            assert(ls.take(idx + 1).last() == lines@[idx as int]@);
            assert(ls.take(idx + 1).len() == idx + 1);
        }
        match read_count_line(&lines[idx], idx + 1) {
            None => {},
            Some(Err(m)) => {
                proof {
                    lemma_count_lines_err_stays(ls, idx + 1);
                }
                return Err(m);
            },
            Some(Ok(p)) => {
                let ghost before = out@;
                let ghost pv = (p.0@, p.1 as nat);
                out.push(p);
                assert(entries_view(out@) =~= entries_view(before).push(pv));
            },
        }
        idx = idx + 1;
    }
    assert(ls.take(lines@.len() as int) =~= ls);
    if out.len() < SCOPE_BOOKS {
        return Err(String::from_str("Bible chapter-count asset has fewer than 5 books"));
    }
    assert(entries_view(out@).len() == out@.len());
    Ok(out)
}

proof fn lemma_count_lines_err_stays(lines: Seq<Seq<char>>, k: int)
    requires
        0 <= k <= lines.len(),
        count_lines(lines.take(k)) is Err,
    ensures
        count_lines(lines) == count_lines(lines.take(k)),
    decreases lines.len() - k,
{
    if k < lines.len() {
        assert(lines.take(k + 1).drop_last() =~= lines.take(k));
        lemma_count_lines_err_stays(lines, k + 1);
    } else {
        assert(lines.take(k) =~= lines);
    }
}


/// The books of the entries, in order.
pub open spec fn entry_books(e: Seq<(Seq<char>, nat)>) -> Seq<Seq<char>> {
    e.map_values(|p: (Seq<char>, nat)| p.0)
}

fn chapter_ref(book: &str, chapter: usize) -> (r: String)
    ensures
        r@ == book@ + ":"@ + decimal(chapter as nat),
{
    let mut s = String::from_str(book);
    push_str(&mut s, ":");
    let n = decimal_string(chapter);
    push_str(&mut s, n.as_str());
    s
}

/// Every chapter of every book, book by book.
pub fn chapter_pool(entries: &Vec<(String, usize)>) -> (pool: Vec<String>)
    ensures
        views(pool@) == chapter_pool_spec(entries_view(entries@)),
{
    let ghost ev = entries_view(entries@);
    let mut pool: Vec<String> = Vec::new();
    let mut i: usize = 0;
    assert(ev.take(0) =~= Seq::<(Seq<char>, nat)>::empty());
    assert(views(pool@) =~= Seq::<Seq<char>>::empty());
    while i < entries.len()
        invariant
            i <= entries@.len(),
            ev == entries_view(entries@),
            views(pool@) == chapter_pool_spec(ev.take(i as int)),
        decreases entries@.len() - i,
    {
        let book = entries[i].0.as_str();
        let count: usize = entries[i].1;
        let ghost start = views(pool@);
        let mut ch: usize = 0;
        while ch < count
            invariant
                ch <= count,
                views(pool@) == start + chapter_refs(book@, ch as nat),
            decreases count - ch,
        {
            ch = ch + 1;
            let r = chapter_ref(book, ch);
            let ghost before = pool@;
            let ghost rv = r@;
            pool.push(r);
            assert(views(pool@) =~= views(before).push(rv));
            assert(start + chapter_refs(book@, ch as nat) =~= (start + chapter_refs(
                book@,
                (ch - 1) as nat,
            )).push(rv));
        }
        proof {
            assert(ev.take(i + 1).drop_last() =~= ev.take(i as int));
            assert(ev.take(i + 1).last() == (book@, count as nat));
        }
        i = i + 1;
    }
    assert(ev.take(entries@.len() as int) =~= ev);
    pool
}

/// The books of a chapter-count list, in order.
pub fn book_names(entries: &Vec<(String, usize)>) -> (books: Vec<String>)
    ensures
        views(books@) == entry_books(entries_view(entries@)),
{
    let mut books: Vec<String> = Vec::new();
    let mut i: usize = 0;
    while i < entries.len()
        invariant
            i <= entries@.len(),
            views(books@) == entry_books(entries_view(entries@)).take(i as int),
        decreases entries@.len() - i,
    {
        let ghost before = books@;
        proof {
            assert(entries_view(entries@)[i as int] == (entries@[i as int].0@, entries@[
                i as int
            ].1 as nat));
            assert(entry_books(entries_view(entries@))[i as int] == entries@[i as int].0@);
        }
        books.push(entries[i].0.clone());
        assert(views(books@) =~= views(before).push(entries@[i as int].0@));
        assert(entry_books(entries_view(entries@)).take(i + 1) =~= entry_books(
            entries_view(entries@),
        ).take(i as int).push(entries@[i as int].0@));
        i = i + 1;
    }
    assert(entry_books(entries_view(entries@)).take(entries@.len() as int) =~= entry_books(
        entries_view(entries@),
    ));
    books
}

/// The scope of a Bible batch: five books and twenty `Book:chapter`
/// targets, each drawn at random, or why there is none.
pub fn get_bible_scope(contents: &str) -> (r: Result<(Vec<String>, Vec<String>), String>)
    ensures
        match (r, bible_counts_spec(contents@)) {
            (Err(m), Err(n)) => m@ == n,
            (Err(m), Ok(e)) => chapter_pool_spec(e).len() < SCOPE_CHAPTERS && m@
                == "Bible chapter pool has fewer than 20 entries"@,
            (Ok(scope), Ok(e)) => {
                &&& chapter_pool_spec(e).len() >= SCOPE_CHAPTERS
                &&& exists|bs: Seq<String>|
                    views(bs) == entry_books(e) && #[trigger] is_pick(
                        scope.0@,
                        bs,
                        SCOPE_BOOKS as nat,
                    )
                &&& exists|cs: Seq<String>|
                    views(cs) == chapter_pool_spec(e) && #[trigger] is_pick(
                        scope.1@,
                        cs,
                        SCOPE_CHAPTERS as nat,
                    )
            },
            _ => false,
        },
{
    let entries = match load_bible_book_chapter_counts(contents) {
        Ok(e) => e,
        Err(m) => {
            return Err(m);
        },
    };
    let mut books = book_names(&entries);
    let ghost bs = books@;
    shuffle_truncate(&mut books, SCOPE_BOOKS);
    let mut pool = chapter_pool(&entries);
    assert(views(pool@).len() == pool@.len());
    if pool.len() < SCOPE_CHAPTERS {
        return Err(String::from_str("Bible chapter pool has fewer than 20 entries"));
    }
    let ghost cs = pool@;
    shuffle_truncate(&mut pool, SCOPE_CHAPTERS);
    assert(views(cs).len() == cs.len());
    assert(views(bs) == entry_books(entries_view(entries@)) && is_pick(
        books@,
        bs,
        SCOPE_BOOKS as nat,
    ));
    assert(views(cs) == chapter_pool_spec(entries_view(entries@)) && is_pick(
        pool@,
        cs,
        SCOPE_CHAPTERS as nat,
    ));
    let ghost bv = books@;
    let ghost pv = pool@;
    let r: Result<(Vec<String>, Vec<String>), String> = Ok((books, pool));
    assert(r matches Ok(scope) && scope.0@ == bv && scope.1@ == pv);
    assert(match r {
        Ok(scope) => (exists|b: Seq<String>|
            views(b) == entry_books(entries_view(entries@)) && #[trigger] is_pick(
                scope.0@,
                b,
                SCOPE_BOOKS as nat,
            )) && (exists|c: Seq<String>|
            views(c) == chapter_pool_spec(entries_view(entries@)) && #[trigger] is_pick(
                scope.1@,
                c,
                SCOPE_CHAPTERS as nat,
            )),
        Err(_) => false,
    });
    r
}

/// The scope of a fun-facts batch: up to a hundred words of the dictionary
/// asset (its non-blank lines, trimmed), drawn at random.
pub fn get_domains(contents: &str) -> (r: Result<Vec<String>, String>)
    ensures
        match r {
            Err(m) => nonblank_lines(contents@).len() == 0 && m@
                == "dictionary-words.txt is empty"@,
            Ok(words) => nonblank_lines(contents@).len() > 0 && exists|all: Seq<String>|
                views(all) == nonblank_lines(contents@) && #[trigger] is_pick(
                    words@,
                    all,
                    SCOPE_DOMAINS as nat,
                ),
        },
{
    let mut words = nonblank_lines_of(contents);
    assert(views(words@).len() == words@.len());
    if words.len() == 0 {
        return Err(String::from_str("dictionary-words.txt is empty"));
    }
    let ghost all = words@;
    assert(views(all).len() == all.len());
    shuffle_truncate(&mut words, SCOPE_DOMAINS);
    assert(views(all) == nonblank_lines(contents@) && is_pick(words@, all, SCOPE_DOMAINS as nat));
    assert(exists|a: Seq<String>|
        views(a) == nonblank_lines(contents@) && #[trigger] is_pick(
            words@,
            a,
            SCOPE_DOMAINS as nat,
        ));
    assert(nonblank_lines(contents@).len() > 0);
    let r: Result<Vec<String>, String> = Ok(words);
    assert(r matches Ok(w) && w@ == words@);
    assert(match r {
        Err(m) => false,
        Ok(w) => nonblank_lines(contents@).len() > 0 && exists|a: Seq<String>|
            views(a) == nonblank_lines(contents@) && #[trigger] is_pick(w@, a, SCOPE_DOMAINS as nat),
    });
    r
}

/// The topics that are not blank, in order.
pub open spec fn usable_topics(t: Seq<Seq<char>>) -> Seq<Seq<char>>
    decreases t.len(),
{
    if t.len() == 0 {
        Seq::empty()
    } else if trim(t.last()).len() > 0 {
        usable_topics(t.drop_last()).push(t.last())
    } else {
        usable_topics(t.drop_last())
    }
}

/// The scope of a riddles batch: up to sixteen topics of the topic asset (a
/// JSON array of strings; blank ones left out), drawn at random.
pub fn get_riddle_topics(contents: &str) -> (r: Result<Vec<String>, String>)
    ensures
        match (r, json_string_array(contents@)) {
            (Err(m), None) => exists|t: Seq<char>|
                m@ == "Failed to parse riddle-topics.json: "@ + t,
            (Err(m), Some(t)) => usable_topics(t).len() == 0 && m@
                == "riddle-topics.json has no usable topics"@,
            (Ok(topics), Some(t)) => usable_topics(t).len() > 0 && exists|all: Seq<String>|
                views(all) == usable_topics(t) && #[trigger] is_pick(
                    topics@,
                    all,
                    SCOPE_TOPICS as nat,
                ),
            _ => false,
        },
{
    let parsed = match parse_json_string_array(contents) {
        Ok(t) => t,
        Err(e) => {
            let mut m = String::from_str("Failed to parse riddle-topics.json: ");
            let text = json_error_text(&e);
            push_str(&mut m, text.as_str());
            assert(m@ == "Failed to parse riddle-topics.json: "@ + text@);
            return Err(m);
        },
    };
    let ghost tv = views(parsed@);
    let mut topics: Vec<String> = Vec::new();
    let mut i: usize = 0;
    assert(tv.take(0) =~= Seq::<Seq<char>>::empty());
    assert(views(topics@) =~= Seq::<Seq<char>>::empty());
    while i < parsed.len()
        invariant
            i <= parsed@.len(),
            tv == views(parsed@),
            views(topics@) == usable_topics(tv.take(i as int)),
        decreases parsed@.len() - i,
    {
        proof {
            assert(tv.take(i + 1).drop_last() =~= tv.take(i as int));
            assert(tv.take(i + 1).last() == parsed@[i as int]@);
        }
        let t = trim_str(parsed[i].as_str());
        if !t.as_str().is_empty() {
            let ghost before = topics@;
            topics.push(parsed[i].clone());
            assert(views(topics@) =~= views(before).push(parsed@[i as int]@));
        }
        i = i + 1;
    }
    assert(tv.take(parsed@.len() as int) =~= tv);
    assert(views(topics@).len() == topics@.len());
    if topics.len() == 0 {
        return Err(String::from_str("riddle-topics.json has no usable topics"));
    }
    let ghost all = topics@;
    shuffle_truncate(&mut topics, SCOPE_TOPICS);
    assert(views(all) == usable_topics(tv) && is_pick(topics@, all, SCOPE_TOPICS as nat));
    let ghost tp = topics@;
    let r: Result<Vec<String>, String> = Ok(topics);
    assert(r matches Ok(w) && w@ == tp);
    assert(match r {
        Ok(w) => exists|a: Seq<String>|
            views(a) == usable_topics(tv) && #[trigger] is_pick(w@, a, SCOPE_TOPICS as nat),
        Err(_) => false,
    });
    r
}

} // verus!
