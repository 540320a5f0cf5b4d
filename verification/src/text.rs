//! Text primitives shared by the games: whitespace trimming, line splitting,
//! joining, substring replacement and decimal numbers, each with a
//! mathematical definition over `Seq<char>`.
use vstd::prelude::*;

verus! {

/// The Unicode `White_Space` characters (what `char::is_whitespace` accepts).
pub open spec fn is_ws(c: char) -> bool {
    let n: u32 = c as u32;
    ||| 9 <= n <= 13
    ||| n == 32
    ||| n == 0x85
    ||| n == 0xA0
    ||| n == 0x1680
    ||| 0x2000 <= n <= 0x200A
    ||| n == 0x2028
    ||| n == 0x2029
    ||| n == 0x202F
    ||| n == 0x205F
    ||| n == 0x3000
}

/// `s` without its leading whitespace.
pub open spec fn trim_start(s: Seq<char>) -> Seq<char>
    decreases s.len(),
{
    if s.len() > 0 && is_ws(s[0]) {
        trim_start(s.drop_first())
    } else {
        s
    }
}

/// `s` without its trailing whitespace.
pub open spec fn trim_end(s: Seq<char>) -> Seq<char>
    decreases s.len(),
{
    if s.len() > 0 && is_ws(s.last()) {
        trim_end(s.drop_last())
    } else {
        s
    }
}

/// `s` without leading and trailing whitespace (`str::trim`).
pub open spec fn trim(s: Seq<char>) -> Seq<char> {
    trim_end(trim_start(s))
}

/// The pieces of `s` between occurrences of `sep` (`str::split` with a char):
/// `k` separators give `k + 1` pieces.
pub open spec fn split_on(s: Seq<char>, sep: char) -> Seq<Seq<char>>
    decreases s.len(),
{
    if s.len() == 0 {
        seq![Seq::<char>::empty()]
    } else {
        let prev = split_on(s.drop_last(), sep);
        if s.last() == sep {
            prev.push(Seq::<char>::empty())
        } else {
            prev.update(prev.len() - 1, prev.last().push(s.last()))
        }
    }
}

/// The trimmed pieces that are not empty, in order.
pub open spec fn trimmed_nonblank(pieces: Seq<Seq<char>>) -> Seq<Seq<char>>
    decreases pieces.len(),
{
    if pieces.len() == 0 {
        Seq::<Seq<char>>::empty()
    } else {
        let prev = trimmed_nonblank(pieces.drop_last());
        let t = trim(pieces.last());
        if t.len() > 0 {
            prev.push(t)
        } else {
            prev
        }
    }
}

/// The lines of `s`, each trimmed, blank ones left out
/// (`s.lines().map(str::trim).filter(|l| !l.is_empty())`).
pub open spec fn nonblank_lines(s: Seq<char>) -> Seq<Seq<char>> {
    trimmed_nonblank(split_on(s, '\n'))
}

/// The parts joined with `sep` between them (`[T]::join`).
pub open spec fn join(parts: Seq<Seq<char>>, sep: Seq<char>) -> Seq<char>
    decreases parts.len(),
{
    if parts.len() == 0 {
        Seq::<char>::empty()
    } else if parts.len() == 1 {
        parts[0]
    } else {
        join(parts.drop_last(), sep) + sep + parts.last()
    }
}

/// Every non-overlapping occurrence of `pat`, leftmost first, replaced by `rep`
/// (`str::replace` with a non-empty pattern).
pub open spec fn replace_all(s: Seq<char>, pat: Seq<char>, rep: Seq<char>) -> Seq<char>
    decreases s.len(),
{
    if pat.len() == 0 || s.len() < pat.len() {
        s
    } else if s.take(pat.len() as int) == pat {
        rep + replace_all(s.skip(pat.len() as int), pat, rep)
    } else {
        seq![s[0]] + replace_all(s.skip(1), pat, rep)
    }
}

/// The views of a sequence of strings.
pub open spec fn views(v: Seq<String>) -> Seq<Seq<char>> {
    v.map_values(|x: String| x@)
}

/// The decimal digit character for `d < 10`.
pub open spec fn digit_char(d: nat) -> char {
    if d == 0 {
        '0'
    } else if d == 1 {
        '1'
    } else if d == 2 {
        '2'
    } else if d == 3 {
        '3'
    } else if d == 4 {
        '4'
    } else if d == 5 {
        '5'
    } else if d == 6 {
        '6'
    } else if d == 7 {
        '7'
    } else if d == 8 {
        '8'
    } else {
        '9'
    }
}

/// The value of a decimal digit character, if it is one.
pub open spec fn digit_value(c: char) -> Option<nat> {
    if '0' <= c && c <= '9' {
        Some((c as u32 - '0' as u32) as nat)
    } else {
        None
    }
}

/// `n` written in decimal, as `format!("{}", n)` does.
pub open spec fn decimal(n: nat) -> Seq<char>
    decreases n,
{
    if n < 10 {
        seq![digit_char(n)]
    } else {
        decimal(n / 10).push(digit_char(n % 10))
    }
}

/// The ways that reading an unsigned integer can fail (`std::num::IntErrorKind`).
#[derive(Debug, Clone, Copy, PartialEq, Eq, Structural)]
pub enum IntParseError {
    Empty,
    InvalidDigit,
    PosOverflow,
}

/// Reads the digits of `d` from the left, as `usize::from_str` does once a
/// sign is removed: the first character that is no digit, or the first digit
/// that takes the value past `usize::MAX`, decides the error.
pub open spec fn parse_digits(d: Seq<char>) -> Result<nat, IntParseError>
    decreases d.len(),
{
    if d.len() == 0 {
        Ok(0)
    } else {
        match parse_digits(d.drop_last()) {
            Err(e) => Err(e),
            Ok(v) => match digit_value(d.last()) {
                None => Err(IntParseError::InvalidDigit),
                Some(x) => if v * 10 + x > usize::MAX {
                    Err(IntParseError::PosOverflow)
                } else {
                    Ok(v * 10 + x)
                },
            },
        }
    }
}

/// `s.parse::<usize>()`: an optional `+`, then decimal digits.
pub open spec fn parse_usize_spec(s: Seq<char>) -> Result<nat, IntParseError> {
    if s.len() == 0 {
        Err(IntParseError::Empty)
    } else if s.len() == 1 && (s[0] == '+' || s[0] == '-') {
        Err(IntParseError::InvalidDigit)
    } else if s[0] == '+' {
        parse_digits(s.drop_first())
    } else {
        parse_digits(s)
    }
}

/// `String::push`: appends one character.
#[verifier::external_body]
pub(crate) fn push_char(s: &mut String, c: char)
    ensures
        final(s)@ == old(s)@.push(c),
{
    s.push(c)
}

pub fn is_whitespace(c: char) -> (b: bool)
    ensures
        b == is_ws(c),
{
    let n: u32 = c as u32;
    (9 <= n && n <= 13) || n == 32 || n == 0x85 || n == 0xA0 || n == 0x1680 || (0x2000 <= n && n
        <= 0x200A) || n == 0x2028 || n == 0x2029 || n == 0x202F || n == 0x205F || n == 0x3000
}

/// The characters of `s`.
pub fn chars_of(s: &str) -> (v: Vec<char>)
    ensures
        v@ == s@,
{
    let mut v: Vec<char> = Vec::new();
    for c in it: s.chars()
        invariant
            it.seq() == s@,
            v@ == it.seq().take(it.index() as int),
    {
        v.push(c);
        assert(v@ =~= it.seq().take(it.index() + 1));
    }
    assert(v@ =~= s@);
    v
}

/// A string holding `v[lo..hi]`.
pub fn string_from_range(v: &Vec<char>, lo: usize, hi: usize) -> (s: String)
    requires
        lo <= hi <= v.len(),
    ensures
        s@ == v@.subrange(lo as int, hi as int),
{
    let mut s = String::new();
    let mut i = lo;
    while i < hi
        invariant
            lo <= i <= hi <= v.len(),
            s@ == v@.subrange(lo as int, i as int),
        decreases hi - i,
    {
        push_char(&mut s, v[i]);
        assert(s@ =~= v@.subrange(lo as int, i + 1));
        i = i + 1;
    }
    s
}

/// A string holding the characters of `v`.
pub fn string_from_chars(v: &Vec<char>) -> (s: String)
    ensures
        s@ == v@,
{
    let s = string_from_range(v, 0, v.len());
    assert(v@.subrange(0, v.len() as int) =~= v@);
    s
}

proof fn lemma_trim_start_skip(s: Seq<char>, i: int)
    requires
        0 <= i <= s.len(),
        forall|j: int| 0 <= j < i ==> is_ws(#[trigger] s[j]),
    ensures
        trim_start(s) == trim_start(s.subrange(i, s.len() as int)),
    decreases i,
{
    if i > 0 {
        assert(s.drop_first() =~= s.subrange(1, s.len() as int));
        let t = s.drop_first();
        assert forall|j: int| 0 <= j < i - 1 implies is_ws(#[trigger] t[j]) by {
            assert(t[j] == s[j + 1]);
        }
        lemma_trim_start_skip(t, i - 1);
        assert(t.subrange(i - 1, t.len() as int) =~= s.subrange(i, s.len() as int));
    } else {
        assert(s.subrange(0, s.len() as int) =~= s);
    }
}

proof fn lemma_trim_end_cut(s: Seq<char>, k: int)
    requires
        0 <= k <= s.len(),
        forall|j: int| k <= j < s.len() ==> is_ws(#[trigger] s[j]),
    ensures
        trim_end(s) == trim_end(s.subrange(0, k)),
    decreases s.len() - k,
{
    if k < s.len() {
        let t = s.drop_last();
        assert forall|j: int| k <= j < t.len() implies is_ws(#[trigger] t[j]) by {
            assert(t[j] == s[j]);
        }
        lemma_trim_end_cut(t, k);
        assert(t.subrange(0, k) =~= s.subrange(0, k));
    } else {
        assert(s.subrange(0, k) =~= s);
    }
}

/// The characters of `v` without leading and trailing whitespace.
pub fn trim_chars(v: &Vec<char>) -> (r: String)
    ensures
        r@ == trim(v@),
{
    let n: usize = v.len();
    let mut lo: usize = 0;
    while lo < n && is_whitespace(v[lo])
        invariant
            lo <= n == v.len(),
            forall|j: int| 0 <= j < lo ==> is_ws(#[trigger] v@[j]),
        decreases n - lo,
    {
        lo = lo + 1;
    }
    let mut hi: usize = n;
    while hi > lo && is_whitespace(v[hi - 1])
        invariant
            lo <= hi <= n == v.len(),
            forall|j: int| hi <= j < n ==> is_ws(#[trigger] v@[j]),
        decreases hi - lo,
    {
        hi = hi - 1;
    }
    proof {
        lemma_trim_start_skip(v@, lo as int);
        let a = v@.subrange(lo as int, n as int);
        assert(trim_start(a) == a);
        assert forall|j: int| hi - lo <= j < a.len() implies is_ws(#[trigger] a[j]) by {
            assert(a[j] == v@[lo + j]);
        }
        lemma_trim_end_cut(a, hi - lo);
        let b = a.subrange(0, hi - lo);
        assert(b =~= v@.subrange(lo as int, hi as int));
        assert(trim_end(b) == b);
    }
    string_from_range(v, lo, hi)
}

/// `s.trim()`.
pub fn trim_str(s: &str) -> (r: String)
    ensures
        r@ == trim(s@),
{
    let v = chars_of(s);
    trim_chars(&v)
}

pub proof fn lemma_split_on_len(s: Seq<char>, sep: char)
    ensures
        split_on(s, sep).len() >= 1,
    decreases s.len(),
{
    if s.len() > 0 {
        lemma_split_on_len(s.drop_last(), sep);
    }
}

/// The pieces of `s` between occurrences of `sep`, as character vectors.
pub fn split_chars(s: &Vec<char>, sep: char) -> (pieces: Vec<Vec<char>>)
    ensures
        pieces@.len() == split_on(s@, sep).len(),
        forall|i: int| 0 <= i < pieces@.len() ==> #[trigger] pieces@[i]@ == split_on(s@, sep)[i],
{
    let mut pieces: Vec<Vec<char>> = Vec::new();
    let mut cur: Vec<char> = Vec::new();
    let mut i: usize = 0;
    while i < s.len()
        invariant
            i <= s.len(),
            split_on(s@.take(i as int), sep).len() == pieces@.len() + 1,
            forall|k: int|
                0 <= k < pieces@.len() ==> #[trigger] pieces@[k]@ == split_on(
                    s@.take(i as int),
                    sep,
                )[k],
            cur@ == split_on(s@.take(i as int), sep).last(),
        decreases s.len() - i,
    {
        let c = s[i];
        proof {
            lemma_split_on_len(s@.take(i as int), sep);
            assert(s@.take(i + 1).drop_last() =~= s@.take(i as int));
        }
        if c == sep {
            pieces.push(cur);
            cur = Vec::new();
        } else {
            cur.push(c);
        }
        i = i + 1;
    }
    assert(s@.take(s.len() as int) =~= s@);
    pieces.push(cur);
    pieces
}

/// `s.lines().map(str::trim).filter(|l| !l.is_empty())`, collected.
pub fn nonblank_lines_of(s: &str) -> (lines: Vec<String>)
    ensures
        views(lines@) == nonblank_lines(s@),
{
    let v = chars_of(s);
    let pieces = split_chars(&v, '\n');
    let mut out: Vec<String> = Vec::new();
    let mut i: usize = 0;
    while i < pieces.len()
        invariant
            i <= pieces.len(),
            pieces@.len() == split_on(s@, '\n').len(),
            forall|k: int|
                0 <= k < pieces@.len() ==> #[trigger] pieces@[k]@ == split_on(s@, '\n')[k],
            views(out@) == trimmed_nonblank(split_on(s@, '\n').take(i as int)),
        decreases pieces.len() - i,
    {
        let t = trim_chars(&pieces[i]);
        let ghost prev = out@;
        proof {
            let p = split_on(s@, '\n');
            assert(p.take(i + 1).drop_last() =~= p.take(i as int));
            assert(p.take(i + 1).last() == p[i as int]);
        }
        if !t.as_str().is_empty() {
            out.push(t);
            assert(views(out@) =~= views(prev).push(t@));
        }
        i = i + 1;
    }
    assert(split_on(s@, '\n').take(pieces.len() as int) =~= split_on(s@, '\n'));
    out
}


/// `s` followed by `t`.
pub fn push_str(s: &mut String, t: &str)
    ensures
        final(s)@ == old(s)@ + t@,
{
    s.append(t);
}

/// `parts.join(sep)`.
pub fn join_strings(parts: &Vec<String>, sep: &str) -> (r: String)
    ensures
        r@ == join(views(parts@), sep@),
{
    let mut r = String::new();
    let mut i: usize = 0;
    while i < parts.len()
        invariant
            i <= parts.len(),
            r@ == join(views(parts@).take(i as int), sep@),
        decreases parts.len() - i,
    {
        proof {
            let w = views(parts@);
            assert(w.take(i + 1).drop_last() =~= w.take(i as int));
            assert(w.take(i + 1).last() == parts@[i as int]@);
            if i == 0 {
                assert(w.take(1) =~= seq![parts@[0]@]);
                assert(w.take(0) =~= Seq::<Seq<char>>::empty());
            }
        }
        if i > 0 {
            r.append(sep);
        }
        r.append(parts[i].as_str());
        i = i + 1;
    }
    assert(views(parts@).take(parts.len() as int) =~= views(parts@));
    r
}

proof fn lemma_replace_step(s: Seq<char>, pat: Seq<char>, rep: Seq<char>, i: int)
    requires
        pat.len() > 0,
        0 <= i < s.len(),
    ensures
        s.skip(i).len() >= pat.len() && s.skip(i).take(pat.len() as int) == pat ==>
            replace_all(s.skip(i), pat, rep) == rep + replace_all(s.skip(i + pat.len()), pat, rep),
        !(s.skip(i).len() >= pat.len() && s.skip(i).take(pat.len() as int) == pat) ==>
            replace_all(s.skip(i), pat, rep) == seq![s[i]] + replace_all(s.skip(i + 1), pat, rep),
{
    let t = s.skip(i);
    if t.len() >= pat.len() {
        assert(t.skip(pat.len() as int) =~= s.skip(i + pat.len()));
    } else {
        let u = t.skip(1);
        assert(u =~= s.skip(i + 1));
        assert(replace_all(t, pat, rep) == t);
        assert(replace_all(u, pat, rep) == u) by {
            assert(u.len() < pat.len());
        }
        assert(t =~= seq![s[i]] + u);
    }
    assert(t.skip(1) =~= s.skip(i + 1));
}

/// Whether `v[i..]` starts with `pat`.
fn matches_at(v: &Vec<char>, i: usize, pat: &Vec<char>) -> (b: bool)
    requires
        i <= v.len(),
    ensures
        b == (v@.skip(i as int).len() >= pat@.len() && v@.skip(i as int).take(pat@.len() as int)
            == pat@),
{
    if v.len() - i < pat.len() {
        return false;
    }
    let mut k: usize = 0;
    while k < pat.len()
        invariant
            k <= pat.len(),
            i + pat.len() <= v.len(),
            forall|j: int| 0 <= j < k ==> v@[i + j] == pat@[j],
        decreases pat.len() - k,
    {
        if v[i + k] != pat[k] {
            assert(v@.skip(i as int).take(pat@.len() as int)[k as int] != pat@[k as int]);
            return false;
        }
        k = k + 1;
    }
    assert(v@.skip(i as int).take(pat@.len() as int) =~= pat@);
    true
}

/// `s.replace(pat, rep)` for a non-empty `pat`.
pub fn replace_str(s: &str, pat: &str, rep: &str) -> (r: String)
    requires
        pat@.len() > 0,
    ensures
        r@ == replace_all(s@, pat@, rep@),
{
    let v = chars_of(s);
    let p = chars_of(pat);
    let mut r = String::new();
    let mut i: usize = 0;
    assert(v@.skip(0) =~= v@);
    assert(r@ + replace_all(v@, p@, rep@) =~= replace_all(v@, p@, rep@));
    while i < v.len()
        invariant
            i <= v.len(),
            v@ == s@,
            p@ == pat@,
            p@.len() > 0,
            r@ + replace_all(v@.skip(i as int), p@, rep@) == replace_all(v@, p@, rep@),
        decreases v.len() - i,
    {
        proof {
            lemma_replace_step(v@, p@, rep@, i as int);
        }
        if matches_at(&v, i, &p) {
            let ghost before = r@;
            r.append(rep);
            assert(r@ + replace_all(v@.skip(i + p@.len()), p@, rep@) =~= before + (rep@
                + replace_all(v@.skip(i + p@.len()), p@, rep@)));
            i = i + p.len();
        } else {
            let ghost before = r@;
            push_char(&mut r, v[i]);
            assert(r@ + replace_all(v@.skip(i + 1), p@, rep@) =~= before + (seq![v@[i as int]]
                + replace_all(v@.skip(i + 1), p@, rep@)));
            i = i + 1;
        }
    }
    assert(v@.skip(v.len() as int) =~= Seq::<char>::empty());
    assert(r@ =~= r@ + replace_all(v@.skip(v.len() as int), p@, rep@));
    r
}

fn digit_to_char(d: usize) -> (c: char)
    requires
        d < 10,
    ensures
        c == digit_char(d as nat),
{
    if d == 0 {
        '0'
    } else if d == 1 {
        '1'
    } else if d == 2 {
        '2'
    } else if d == 3 {
        '3'
    } else if d == 4 {
        '4'
    } else if d == 5 {
        '5'
    } else if d == 6 {
        '6'
    } else if d == 7 {
        '7'
    } else if d == 8 {
        '8'
    } else {
        '9'
    }
}

/// `n.to_string()`.
pub fn decimal_string(n: usize) -> (s: String)
    ensures
        s@ == decimal(n as nat),
    decreases n,
{
    if n < 10 {
        let mut s = String::new();
        push_char(&mut s, digit_to_char(n));
        assert(s@ =~= seq![digit_char(n as nat)]);
        s
    } else {
        let mut s = decimal_string(n / 10);
        push_char(&mut s, digit_to_char(n % 10));
        s
    }
}

/// `s.parse::<usize>()`, with the kind of error where it fails.
pub fn parse_usize(s: &str) -> (r: Result<usize, IntParseError>)
    ensures
        match parse_usize_spec(s@) {
            Ok(v) => r == Ok::<usize, IntParseError>(v as usize),
            Err(e) => r == Err::<usize, IntParseError>(e),
        },
{
    let v = chars_of(s);
    if v.len() == 0 {
        return Err(IntParseError::Empty);
    }
    if v.len() == 1 && (v[0] == '+' || v[0] == '-') {
        return Err(IntParseError::InvalidDigit);
    }
    let start: usize = if v[0] == '+' { 1 } else { 0 };
    let ghost d = v@.skip(start as int);
    assert(start == 1 ==> d =~= v@.drop_first());
    assert(start == 0 ==> d =~= v@);
    assert(parse_usize_spec(s@) == parse_digits(d));
    assert(d.take(0) =~= Seq::<char>::empty());
    let mut acc: usize = 0;
    let mut i: usize = start;
    while i < v.len()
        invariant
            start <= i <= v.len(),
            d == v@.skip(start as int),
            parse_usize_spec(s@) == parse_digits(d),
            parse_digits(d.take(i - start)) == Ok::<nat, IntParseError>(acc as nat),
        decreases v.len() - i,
    {
        let c = v[i];
        proof {
            assert(d.take(i - start + 1).drop_last() =~= d.take(i - start));
            assert(d.take(i - start + 1).last() == c);
        }
        if !('0' <= c && c <= '9') {
            proof {
                assert(digit_value(c) is None);
                assert(parse_digits(d.take(i - start + 1)) == Err::<nat, IntParseError>(
                    IntParseError::InvalidDigit,
                ));
                lemma_parse_digits_err_stays(d, (i - start + 1) as int);
            }
            return Err(IntParseError::InvalidDigit);
        }
        let x: usize = (c as u32 - '0' as u32) as usize;
        if acc > (usize::MAX - x) / 10 {
            proof {
                assert(acc * 10 + x > usize::MAX) by (nonlinear_arith)
                    requires
                        acc > (usize::MAX - x) / 10,
                        x <= 9,
                ;
                assert(digit_value(c) == Some(x as nat));
                assert(parse_digits(d.take(i - start + 1)) == Err::<nat, IntParseError>(
                    IntParseError::PosOverflow,
                ));
                lemma_parse_digits_err_stays(d, (i - start + 1) as int);
            }
            return Err(IntParseError::PosOverflow);
        }
        assert(acc * 10 + x <= usize::MAX) by (nonlinear_arith)
            requires
                acc <= (usize::MAX - x) / 10,
                x <= 9,
        ;
        assert(digit_value(c) == Some(x as nat));
        acc = acc * 10 + x;
        i = i + 1;
    }
    assert(d.take(v.len() - start) =~= d);
    Ok(acc)
}

/// Once a prefix of the digits fails, the whole fails the same way.
proof fn lemma_parse_digits_err_stays(d: Seq<char>, k: int)
    requires
        0 <= k <= d.len(),
        parse_digits(d.take(k)) is Err,
    ensures
        parse_digits(d) == parse_digits(d.take(k)),
    decreases d.len() - k,
{
    if k < d.len() {
        lemma_parse_digits_err_stays_step(d, k);
        lemma_parse_digits_err_stays(d, k + 1);
    } else {
        assert(d.take(k) =~= d);
    }
}

proof fn lemma_parse_digits_err_stays_step(d: Seq<char>, k: int)
    requires
        0 <= k < d.len(),
        parse_digits(d.take(k)) is Err,
    ensures
        parse_digits(d.take(k + 1)) == parse_digits(d.take(k)),
{
    assert(d.take(k + 1).drop_last() =~= d.take(k));
}


proof fn lemma_trim_start_head(s: Seq<char>)
    ensures
        trim_start(s).len() == 0 || !is_ws(trim_start(s)[0]),
    decreases s.len(),
{
    if s.len() > 0 && is_ws(s[0]) {
        lemma_trim_start_head(s.drop_first());
    }
}

proof fn lemma_trim_end_prefix(s: Seq<char>)
    ensures
        trim_end(s).len() <= s.len(),
        trim_end(s) == s.take(trim_end(s).len() as int),
        trim_end(s).len() == 0 || !is_ws(trim_end(s).last()),
    decreases s.len(),
{
    if s.len() > 0 && is_ws(s.last()) {
        lemma_trim_end_prefix(s.drop_last());
        let t = trim_end(s.drop_last());
        assert(s.drop_last().take(t.len() as int) =~= s.take(t.len() as int));
    } else {
        assert(s.take(s.len() as int) =~= s);
    }
}

/// Trimming twice is trimming once.
pub proof fn lemma_trim_idempotent(s: Seq<char>)
    ensures
        trim(trim(s)) == trim(s),
{
    let a = trim_start(s);
    lemma_trim_start_head(s);
    let t = trim_end(a);
    lemma_trim_end_prefix(a);
    if t.len() > 0 {
        assert(t[0] == a[0]);
    }
    assert(trim_start(t) == t);
    assert(trim_end(t) == t);
}

/// The lines that a text's prompts are read from come out trimmed and not
/// empty.
pub proof fn lemma_nonblank_lines_clean(s: Seq<char>)
    ensures
        forall|i: int|
            0 <= i < nonblank_lines(s).len() ==> #[trigger] trim(nonblank_lines(s)[i])
                == nonblank_lines(s)[i] && nonblank_lines(s)[i].len() > 0,
{
    let p = split_on(s, '\n');
    lemma_trimmed_nonblank_clean(p);
    assert forall|i: int| 0 <= i < nonblank_lines(s).len() implies #[trigger] trim(
        nonblank_lines(s)[i],
    ) == nonblank_lines(s)[i] && nonblank_lines(s)[i].len() > 0 by {
        assert(nonblank_lines(s)[i] == trimmed_nonblank(p)[i]);
        assert(trim(trimmed_nonblank(p)[i]) == trimmed_nonblank(p)[i]);
    }
}

proof fn lemma_trimmed_nonblank_clean(p: Seq<Seq<char>>)
    ensures
        forall|i: int|
            0 <= i < trimmed_nonblank(p).len() ==> #[trigger] trim(trimmed_nonblank(p)[i])
                == trimmed_nonblank(p)[i] && trimmed_nonblank(p)[i].len() > 0,
    decreases p.len(),
{
    if p.len() > 0 {
        lemma_trimmed_nonblank_clean(p.drop_last());
        let prev = trimmed_nonblank(p.drop_last());
        let t = trim(p.last());
        lemma_trim_idempotent(p.last());
        if t.len() > 0 {
            let r = prev.push(t);
            assert forall|i: int| 0 <= i < r.len() implies #[trigger] trim(r[i]) == r[i]
                && r[i].len() > 0 by {
                if i < prev.len() {
                    assert(r[i] == prev[i]);
                }
            }
        }
    }
}

} // verus!
