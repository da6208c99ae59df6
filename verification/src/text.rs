//! Text as a sequence of characters: searching, cutting, splitting and
//! joining, with the meaning that `str` gives to each operation.
//!
//! A position counts characters.
use vstd::prelude::*;
use vstd::slice::slice_subrange;
use vstd::utf8::is_ascii_chars;

verus! {

broadcast use vstd::string::group_string_axioms;

// ---------------------------------------------------------------------------
// Characters
// ---------------------------------------------------------------------------
/// The characters with the Unicode property `White_Space`.
pub open spec fn white_space(c: char) -> bool {
    ||| '\u{9}' <= c <= '\u{d}'
    ||| c == ' '
    ||| c == '\u{85}'
    ||| c == '\u{a0}'
    ||| c == '\u{1680}'
    ||| '\u{2000}' <= c <= '\u{200a}'
    ||| c == '\u{2028}'
    ||| c == '\u{2029}'
    ||| c == '\u{202f}'
    ||| c == '\u{205f}'
    ||| c == '\u{3000}'
}

/// Whether `c` is white space.
pub fn is_white_space(c: char) -> (b: bool)
    ensures
        b == white_space(c),
{
    ('\u{9}' <= c && c <= '\u{d}') || c == ' ' || c == '\u{85}' || c == '\u{a0}' || c == '\u{1680}'
        || ('\u{2000}' <= c && c <= '\u{200a}') || c == '\u{2028}' || c == '\u{2029}' || c
        == '\u{202f}' || c == '\u{205f}' || c == '\u{3000}'
}

/// The lower case of an ASCII letter; any other character is its own.
pub open spec fn ascii_lower(c: char) -> char {
    if 'A' <= c <= 'Z' {
        ((c as u32) + 32) as char
    } else {
        c
    }
}

fn lower_ascii(c: char) -> (r: char)
    ensures
        r == ascii_lower(c),
{
    if 'A' <= c && c <= 'Z' {
        ((c as u8) + 32) as char
    } else {
        c
    }
}

// ---------------------------------------------------------------------------
// Characters of a string, and back
// ---------------------------------------------------------------------------
/// `String::push` appends one character.
pub assume_specification[ std::string::String::push ](s: &mut std::string::String, ch: char)
    ensures
        final(s)@ == old(s)@.push(ch),
;

/// The characters of `s`.
pub fn chars_of(s: &str) -> (v: Vec<char>)
    ensures
        v@ == s@,
{
    let mut v: Vec<char> = Vec::new();
    for c in iter: s.chars()
        invariant
            iter.seq() == s@,
            v@ == s@.take(iter.index()),
    {
        v.push(c);
    }
    v
}

/// The string made of the characters `v`.
pub fn string_of(v: &[char]) -> (s: String)
    ensures
        s@ == v@,
{
    let mut s = String::new();
    for i in 0..v.len()
        invariant
            s@ == v@.take(i as int),
    {
        s.push(v[i]);
    }
    s
}

/// The part of `s` from character `from` up to character `to`.
pub fn cut<'a>(s: &'a str, from: usize, to: usize) -> (r: &'a str)
    requires
        from <= to <= s@.len(),
    ensures
        r@ == s@.subrange(from as int, to as int),
{
    s.substring_char(from, to)
}

/// Whether two strings hold the same characters.
pub fn same(a: &str, b: &str) -> (r: bool)
    ensures
        r == (a@ == b@),
{
    let x = chars_of(a);
    let y = chars_of(b);
    same_chars(x.as_slice(), y.as_slice())
}

fn same_chars(x: &[char], y: &[char]) -> (r: bool)
    ensures
        r == (x@ == y@),
{
    if x.len() != y.len() {
        return false;
    }
    for i in 0..x.len()
        invariant
            x@.len() == y@.len(),
            forall|j: int| 0 <= j < i ==> x@[j] == y@[j],
    {
        if x[i] != y[i] {
            assert(x@[i as int] != y@[i as int]);
            return false;
        }
    }
    assert(x@ =~= y@);
    true
}

// ---------------------------------------------------------------------------
// Searching
// ---------------------------------------------------------------------------
/// `p` stands in `s` at position `i`.
pub open spec fn occurs_at(s: Seq<char>, p: Seq<char>, i: int) -> bool {
    0 <= i && i + p.len() <= s.len() && s.subrange(i, i + p.len()) =~= p
}

/// `p` stands somewhere in `s`.
pub open spec fn contains_text(s: Seq<char>, p: Seq<char>) -> bool {
    exists|i: int| occurs_at(s, p, i)
}

/// `i` is the first position at which `p` stands in `s`.
pub open spec fn first_at(s: Seq<char>, p: Seq<char>, i: int) -> bool {
    occurs_at(s, p, i) && forall|j: int| 0 <= j < i ==> !occurs_at(s, p, j)
}

/// The first position at which `p` stands in `s`.
pub open spec fn position_of(s: Seq<char>, p: Seq<char>) -> Option<int> {
    if exists|i: int| first_at(s, p, i) {
        Some(choose|i: int| first_at(s, p, i))
    } else {
        None
    }
}

/// `i` is the first position in `s` that holds `c`.
pub open spec fn first_char_at(s: Seq<char>, c: char, i: int) -> bool {
    0 <= i < s.len() && s[i] == c && forall|j: int| 0 <= j < i ==> s[j] != c
}

/// The first position in `s` that holds `c`.
pub open spec fn position_of_char(s: Seq<char>, c: char) -> Option<int> {
    if exists|i: int| first_char_at(s, c, i) {
        Some(choose|i: int| first_char_at(s, c, i))
    } else {
        None
    }
}

/// A first position is the only one.
pub proof fn lemma_position_of(s: Seq<char>, p: Seq<char>, i: int)
    requires
        first_at(s, p, i),
    ensures
        position_of(s, p) == Some(i),
{
    let k = choose|k: int| first_at(s, p, k);
    assert(first_at(s, p, k));
    assert(!(k < i) && !(i < k));
}

/// Text that occurs has a first position, and text without one does not occur.
pub proof fn lemma_position_of_some(s: Seq<char>, p: Seq<char>)
    ensures
        position_of(s, p) is Some <==> contains_text(s, p),
        position_of(s, p) is Some ==> first_at(s, p, position_of(s, p)->0),
{
    if contains_text(s, p) {
        let i = choose|i: int| occurs_at(s, p, i);
        lemma_first_below(s, p, i);
    }
}

proof fn lemma_first_below(s: Seq<char>, p: Seq<char>, i: int)
    requires
        occurs_at(s, p, i),
    ensures
        exists|k: int| first_at(s, p, k),
    decreases i,
{
    if exists|j: int| 0 <= j < i && occurs_at(s, p, j) {
        let j = choose|j: int| 0 <= j < i && occurs_at(s, p, j);
        lemma_first_below(s, p, j);
    } else {
        assert(first_at(s, p, i));
    }
}

/// A first position of a character is the only one.
pub proof fn lemma_position_of_char(s: Seq<char>, c: char, i: int)
    requires
        first_char_at(s, c, i),
    ensures
        position_of_char(s, c) == Some(i),
{
    let k = choose|k: int| first_char_at(s, c, k);
    assert(first_char_at(s, c, k));
    assert(!(k < i) && !(i < k));
}

/// A character that occurs has a first position.
pub proof fn lemma_position_of_char_some(s: Seq<char>, c: char)
    ensures
        position_of_char(s, c) is Some <==> s.contains(c),
        position_of_char(s, c) is Some ==> first_char_at(s, c, position_of_char(s, c)->0),
{
    if s.contains(c) {
        let i = choose|i: int| 0 <= i < s.len() && s[i] == c;
        lemma_first_char_below(s, c, i);
    }
    if position_of_char(s, c) is Some {
        let k = choose|k: int| first_char_at(s, c, k);
        assert(s[k] == c);
    }
}

proof fn lemma_first_char_below(s: Seq<char>, c: char, i: int)
    requires
        0 <= i < s.len(),
        s[i] == c,
    ensures
        exists|k: int| first_char_at(s, c, k),
    decreases i,
{
    if exists|j: int| 0 <= j < i && s[j] == c {
        let j = choose|j: int| 0 <= j < i && s[j] == c;
        lemma_first_char_below(s, c, j);
    } else {
        assert(first_char_at(s, c, i));
    }
}

fn matches_at(s: &[char], p: &[char], at: usize) -> (r: bool)
    requires
        at + p@.len() <= s@.len(),
    ensures
        r == occurs_at(s@, p@, at as int),
{
    let n: usize = s.len();
    assert(at + p.len() <= n);
    same_chars(slice_subrange(s, at, at + p.len()), p)
}

/// Position of the first occurrence of `p` in `s`.
pub fn find(s: &str, p: &str) -> (r: Option<usize>)
    ensures
        r is Some <==> position_of(s@, p@) is Some,
        r matches Some(i) ==> position_of(s@, p@) == Some(i as int) && i + p@.len() <= s@.len(),
{
    let text = chars_of(s);
    let pattern = chars_of(p);
    proof {
        lemma_position_of_some(s@, p@);
    }
    if pattern.len() > text.len() {
        return None;
    }
    let last: usize = text.len() - pattern.len();
    let mut i: usize = 0;
    loop
        invariant
            text@ == s@,
            pattern@ == p@,
            last + pattern@.len() == text@.len(),
            i <= last,
            forall|j: int| 0 <= j < i ==> !occurs_at(s@, p@, j),
        decreases last - i,
    {
        if matches_at(text.as_slice(), pattern.as_slice(), i) {
            proof {
                lemma_position_of(s@, p@, i as int);
            }
            return Some(i);
        }
        if i == last {
            return None;
        }
        i += 1;
    }
}

/// Position of the first `c` in `s`.
pub fn find_char(s: &str, c: char) -> (r: Option<usize>)
    ensures
        r is Some <==> position_of_char(s@, c) is Some,
        r matches Some(i) ==> position_of_char(s@, c) == Some(i as int) && i < s@.len(),
{
    let text = chars_of(s);
    proof {
        lemma_position_of_char_some(s@, c);
    }
    for i in 0..text.len()
        invariant
            text@ == s@,
            forall|j: int| 0 <= j < i ==> s@[j] != c,
    {
        if text[i] == c {
            proof {
                lemma_position_of_char(s@, c, i as int);
            }
            return Some(i);
        }
    }
    None
}

/// Whether `p` stands somewhere in `s`.
pub fn contains(s: &str, p: &str) -> (r: bool)
    ensures
        r == contains_text(s@, p@),
{
    proof {
        lemma_position_of_some(s@, p@);
    }
    find(s, p).is_some()
}

/// Whether `s` begins with `p`.
pub fn starts_with(s: &str, p: &str) -> (r: bool)
    ensures
        r == p@.is_prefix_of(s@),
{
    let text = chars_of(s);
    let pattern = chars_of(p);
    if pattern.len() > text.len() {
        return false;
    }
    matches_at(text.as_slice(), pattern.as_slice(), 0)
}

// ---------------------------------------------------------------------------
// Runs of characters
// ---------------------------------------------------------------------------
/// How many characters at the start of `s` satisfy `p`, up to the first that
/// does not.
pub open spec fn run_len(s: Seq<char>, p: spec_fn(char) -> bool) -> nat
    decreases s.len(),
{
    if s.len() > 0 && p(s[0]) {
        1 + run_len(s.drop_first(), p)
    } else {
        0
    }
}

/// How many characters at the end of `s` satisfy `p`, back to the last that
/// does not.
pub open spec fn tail_len(s: Seq<char>, p: spec_fn(char) -> bool) -> nat
    decreases s.len(),
{
    if s.len() > 0 && p(s.last()) {
        1 + tail_len(s.drop_last(), p)
    } else {
        0
    }
}

/// White space, as a predicate.
pub open spec fn white() -> spec_fn(char) -> bool {
    |c: char| white_space(c)
}

/// Anything but white space, as a predicate.
pub open spec fn not_white() -> spec_fn(char) -> bool {
    |c: char| !white_space(c)
}

/// Being the character `c`, as a predicate.
pub open spec fn is_char(c: char) -> spec_fn(char) -> bool {
    |d: char| d == c
}

/// `s` without the characters at its start that satisfy `p`.
pub open spec fn skip_run(s: Seq<char>, p: spec_fn(char) -> bool) -> Seq<char> {
    s.skip(run_len(s, p) as int)
}

/// `s` without the white space at its end.
pub open spec fn trimmed_end(s: Seq<char>) -> Seq<char> {
    s.take(s.len() - tail_len(s, white()))
}

/// `s` without the white space at either end.
pub open spec fn trimmed(s: Seq<char>) -> Seq<char> {
    trimmed_end(skip_run(s, white()))
}

/// The run is as long as the characters that were looked at.
pub proof fn lemma_run_len(s: Seq<char>, p: spec_fn(char) -> bool, n: int)
    requires
        0 <= n <= s.len(),
        forall|j: int| 0 <= j < n ==> p(#[trigger] s[j]),
        n < s.len() ==> !p(s[n]),
    ensures
        run_len(s, p) == n,
    decreases n,
{
    if n > 0 {
        assert(p(s[0]));
        assert forall|j: int| 0 <= j < n - 1 implies p(#[trigger] s.drop_first()[j]) by {
            assert(s.drop_first()[j] == s[j + 1]);
        }
        lemma_run_len(s.drop_first(), p, n - 1);
    }
}

/// What a run is: all of it satisfies `p`, and what follows it does not.
pub proof fn lemma_run_len_is(s: Seq<char>, p: spec_fn(char) -> bool)
    ensures
        run_len(s, p) <= s.len(),
        forall|j: int| 0 <= j < run_len(s, p) ==> p(#[trigger] s[j]),
        run_len(s, p) < s.len() ==> !p(s[run_len(s, p) as int]),
    decreases s.len(),
{
    if s.len() > 0 && p(s[0]) {
        let t = s.drop_first();
        lemma_run_len_is(t, p);
        assert forall|j: int| 0 <= j < run_len(s, p) implies p(#[trigger] s[j]) by {
            if j > 0 {
                assert(t[j - 1] == s[j]);
            }
        }
    }
}

/// The tail is as long as the characters that were looked at.
pub proof fn lemma_tail_len(s: Seq<char>, p: spec_fn(char) -> bool, n: int)
    requires
        0 <= n <= s.len(),
        forall|j: int| s.len() - n <= j < s.len() ==> p(#[trigger] s[j]),
        n < s.len() ==> !p(s[s.len() - n - 1]),
    ensures
        tail_len(s, p) == n,
    decreases n,
{
    if n > 0 {
        assert(p(s[s.len() - 1]));
        lemma_tail_len(s.drop_last(), p, n - 1);
    }
}

/// What a tail is: all of it satisfies `p`, and what stands before it does not.
pub proof fn lemma_tail_len_is(s: Seq<char>, p: spec_fn(char) -> bool)
    ensures
        tail_len(s, p) <= s.len(),
        forall|j: int| s.len() - tail_len(s, p) <= j < s.len() ==> p(#[trigger] s[j]),
        tail_len(s, p) < s.len() ==> !p(s[s.len() - tail_len(s, p) - 1]),
    decreases s.len(),
{
    if s.len() > 0 && p(s.last()) {
        let t = s.drop_last();
        lemma_tail_len_is(t, p);
        assert forall|j: int| s.len() - tail_len(s, p) <= j < s.len() implies p(
            #[trigger] s[j],
        ) by {
            if j < s.len() - 1 {
                assert(t[j] == s[j]);
            }
        }
    }
}

fn leading_white(v: &[char]) -> (n: usize)
    ensures
        n == run_len(v@, white()),
        n <= v@.len(),
{
    for n in 0..v.len()
        invariant
            forall|j: int| 0 <= j < n ==> white()(#[trigger] v@[j]),
    {
        if !is_white_space(v[n]) {
            proof {
                lemma_run_len(v@, white(), n as int);
            }
            return n;
        }
    }
    proof {
        lemma_run_len(v@, white(), v@.len() as int);
    }
    v.len()
}

fn leading_not_white(v: &[char]) -> (n: usize)
    ensures
        n == run_len(v@, not_white()),
        n <= v@.len(),
{
    for n in 0..v.len()
        invariant
            forall|j: int| 0 <= j < n ==> not_white()(#[trigger] v@[j]),
    {
        if is_white_space(v[n]) {
            proof {
                lemma_run_len(v@, not_white(), n as int);
            }
            return n;
        }
    }
    proof {
        lemma_run_len(v@, not_white(), v@.len() as int);
    }
    v.len()
}

fn leading_char(v: &[char], c: char) -> (n: usize)
    ensures
        n == run_len(v@, is_char(c)),
        n <= v@.len(),
{
    for n in 0..v.len()
        invariant
            forall|j: int| 0 <= j < n ==> is_char(c)(#[trigger] v@[j]),
    {
        if v[n] != c {
            proof {
                lemma_run_len(v@, is_char(c), n as int);
            }
            return n;
        }
    }
    proof {
        lemma_run_len(v@, is_char(c), v@.len() as int);
    }
    v.len()
}

fn trailing_white(v: &[char]) -> (n: usize)
    ensures
        n == tail_len(v@, white()),
        n <= v@.len(),
{
    let len: usize = v.len();
    for n in 0..len
        invariant
            len == v@.len(),
            forall|j: int| len - n <= j < len ==> white()(#[trigger] v@[j]),
    {
        if !is_white_space(v[len - n - 1]) {
            proof {
                lemma_tail_len(v@, white(), n as int);
            }
            return n;
        }
    }
    proof {
        lemma_tail_len(v@, white(), len as int);
    }
    len
}

/// `s` without the white space at either end.
pub fn trim<'a>(s: &'a str) -> (r: &'a str)
    ensures
        r@ == trimmed(s@),
{
    let v = chars_of(s);
    let from: usize = leading_white(v.as_slice());
    let rest = slice_subrange(v.as_slice(), from, v.len());
    let len: usize = rest.len();
    let to: usize = from + (len - trailing_white(rest));
    assert(rest@ =~= skip_run(s@, white()));
    assert(s@.subrange(from as int, to as int) =~= trimmed(s@));
    cut(s, from, to)
}

/// `s` without the characters `c` at its start.
pub fn strip_leading<'a>(s: &'a str, c: char) -> (r: &'a str)
    ensures
        r@ == skip_run(s@, is_char(c)),
{
    let v = chars_of(s);
    let from: usize = leading_char(v.as_slice(), c);
    assert(s@.subrange(from as int, s@.len() as int) =~= skip_run(s@, is_char(c)));
    cut(s, from, v.len())
}

/// The first word of `s` and what stands behind the white space character
/// that ends it.
pub open spec fn split_first_word(s: Seq<char>) -> (Seq<char>, Seq<char>) {
    let n = run_len(s, not_white());
    (
        s.take(n as int),
        if n < s.len() {
            s.skip(n as int + 1)
        } else {
            Seq::empty()
        },
    )
}

/// Cuts `s` at its first white space character.
pub fn cut_first_word<'a>(s: &'a str) -> (r: (&'a str, &'a str))
    ensures
        (r.0@, r.1@) == split_first_word(s@),
{
    let v = chars_of(s);
    let n: usize = leading_not_white(v.as_slice());
    let len: usize = v.len();
    let word = cut(s, 0, n);
    let rest = if n < len {
        cut(s, n + 1, len)
    } else {
        cut(s, len, len)
    };
    assert(word@ =~= split_first_word(s@).0);
    assert(rest@ =~= split_first_word(s@).1);
    (word, rest)
}

// ---------------------------------------------------------------------------
// Splitting and joining
// ---------------------------------------------------------------------------
/// `head` put in front of the first of `parts`.
pub open spec fn glue(head: Seq<char>, parts: Seq<Seq<char>>) -> Seq<Seq<char>> {
    seq![head + parts[0]] + parts.drop_first()
}

/// The pieces between the characters of `s` that satisfy `p`: one more than
/// there are such characters.
pub open spec fn pieces(s: Seq<char>, p: spec_fn(char) -> bool) -> Seq<Seq<char>>
    decreases s.len(),
{
    if s.len() == 0 {
        seq![Seq::empty()]
    } else if p(s[0]) {
        seq![Seq::empty()] + pieces(s.drop_first(), p)
    } else {
        glue(seq![s[0]], pieces(s.drop_first(), p))
    }
}

/// The characters of each string.
pub open spec fn views(v: Seq<&str>) -> Seq<Seq<char>> {
    v.map_values(|x: &str| x@)
}

/// Having a character, as a predicate on words.
pub open spec fn not_empty() -> spec_fn(Seq<char>) -> bool {
    |w: Seq<char>| w.len() > 0
}

/// The words of `s`: its pieces between white space that are not empty.
pub open spec fn words_of(s: Seq<char>) -> Seq<Seq<char>> {
    pieces(s, white()).filter(not_empty())
}

/// `line` without a carriage return at its end.
pub open spec fn without_cr(line: Seq<char>) -> Seq<char> {
    if line.len() > 0 && line.last() == '\r' {
        line.drop_last()
    } else {
        line
    }
}

/// The lines of `s`. A line ends in a line feed, which a carriage return may
/// precede; the last one may lack its end.
pub open spec fn lines_of(s: Seq<char>) -> Seq<Seq<char>> {
    let parts = pieces(s, is_char('\n'));
    parts.drop_last().map_values(|line: Seq<char>| without_cr(line)) + if parts.last().len() > 0 {
        seq![parts.last()]
    } else {
        Seq::empty()
    }
}

/// The `parts` with `sep` between them.
pub open spec fn joined(parts: Seq<Seq<char>>, sep: Seq<char>) -> Seq<char>
    decreases parts.len(),
{
    if parts.len() == 0 {
        Seq::empty()
    } else if parts.len() == 1 {
        parts[0]
    } else {
        joined(parts.drop_last(), sep) + sep + parts.last()
    }
}

/// There is always a piece.
pub proof fn lemma_pieces_some(s: Seq<char>, p: spec_fn(char) -> bool)
    ensures
        pieces(s, p).len() > 0,
    decreases s.len(),
{
    if s.len() > 0 {
        lemma_pieces_some(s.drop_first(), p);
    }
}

/// Splits `s` where `breaks` says so.
fn pieces_at<'a>(s: &'a str, breaks: &Vec<bool>, Ghost(p): Ghost<spec_fn(char) -> bool>) -> (r: Vec<
    &'a str,
>)
    requires
        breaks@.len() == s@.len(),
        forall|i: int| 0 <= i < s@.len() ==> #[trigger] breaks@[i] == p(s@[i]),
    ensures
        views(r@) == pieces(s@, p),
{
    let mut out: Vec<&'a str> = Vec::new();
    let mut start: usize = 0;
    proof {
        lemma_pieces_some(s@, p);
        assert(s@.skip(0) =~= s@);
        assert(views(out@) + glue(s@.subrange(0, 0), pieces(s@, p)) =~= pieces(s@, p)) by {
            assert(s@.subrange(0, 0) + pieces(s@, p)[0] =~= pieces(s@, p)[0]);
        }
    }
    for i in 0..breaks.len()
        invariant
            breaks@.len() == s@.len(),
            forall|k: int| 0 <= k < s@.len() ==> #[trigger] breaks@[k] == p(s@[k]),
            start <= i,
            pieces(s@, p) == views(out@) + glue(
                s@.subrange(start as int, i as int),
                pieces(s@.skip(i as int), p),
            ),
    {
        let ghost rest = s@.skip(i as int);
        let ghost after = s@.skip(i as int + 1);
        let ghost seen = s@.subrange(start as int, i as int);
        proof {
            lemma_pieces_some(after, p);
            assert(rest.drop_first() =~= after);
            assert(rest[0] == s@[i as int]);
        }
        if breaks[i] {
            let ghost done = views(out@);
            let piece = cut(s, start, i);
            out.push(piece);
            start = i + 1;
            proof {
                assert(views(out@) =~= done.push(seen));
                assert(seen + pieces(rest, p)[0] =~= seen);
                assert(pieces(rest, p).drop_first() =~= pieces(after, p));
                let none = s@.subrange(start as int, i + 1);
                assert(none + pieces(after, p)[0] =~= pieces(after, p)[0]);
                assert(glue(none, pieces(after, p)) =~= pieces(after, p));
                assert(done + glue(seen, pieces(rest, p)) =~= views(out@) + glue(
                    none,
                    pieces(after, p),
                ));
            }
        } else {
            proof {
                let more = s@.subrange(start as int, i + 1);
                assert(seen + (seq![rest[0]] + pieces(after, p)[0]) =~= more + pieces(
                    after,
                    p,
                )[0]);
                assert(pieces(rest, p).drop_first() =~= pieces(after, p).drop_first());
                assert(glue(seen, pieces(rest, p)) =~= glue(more, pieces(after, p)));
            }
        }
    }
    let ghost done = views(out@);
    let piece = cut(s, start, breaks.len());
    out.push(piece);
    proof {
        let seen = s@.subrange(start as int, s@.len() as int);
        let rest = s@.skip(s@.len() as int);
        assert(rest.len() == 0);
        assert(pieces(rest, p) =~= seq![Seq::<char>::empty()]);
        assert(seen + Seq::<char>::empty() =~= seen);
        assert(views(out@) =~= done.push(seen));
        assert(done + glue(seen, pieces(rest, p)) =~= views(out@));
    }
    out
}

/// The pieces of `s` between the characters `sep`.
pub fn split<'a>(s: &'a str, sep: char) -> (r: Vec<&'a str>)
    ensures
        views(r@) == pieces(s@, is_char(sep)),
{
    let v = chars_of(s);
    let mut breaks: Vec<bool> = Vec::new();
    for i in 0..v.len()
        invariant
            v@ == s@,
            breaks@.len() == i,
            forall|k: int| 0 <= k < i ==> #[trigger] breaks@[k] == is_char(sep)(s@[k]),
    {
        breaks.push(v[i] == sep);
    }
    pieces_at(s, &breaks, Ghost(is_char(sep)))
}

/// The words of `s`.
pub fn words<'a>(s: &'a str) -> (r: Vec<&'a str>)
    ensures
        views(r@) == words_of(s@),
{
    let v = chars_of(s);
    let mut breaks: Vec<bool> = Vec::new();
    for i in 0..v.len()
        invariant
            v@ == s@,
            breaks@.len() == i,
            forall|k: int| 0 <= k < i ==> #[trigger] breaks@[k] == white()(s@[k]),
    {
        breaks.push(is_white_space(v[i]));
    }
    let parts = pieces_at(s, &breaks, Ghost(white()));
    let mut out: Vec<&'a str> = Vec::new();
    let ghost all = views(parts@);
    assert(all.take(0).filter(not_empty()) =~= Seq::empty()) by {
        reveal(Seq::filter);
    }
    for i in 0..parts.len()
        invariant
            all == views(parts@),
            views(out@) == all.take(i as int).filter(not_empty()),
    {
        let ghost before = out@;
        let part = parts[i];
        proof {
            reveal(Seq::filter);
            assert(all.take(i + 1).drop_last() =~= all.take(i as int));
            assert(all.take(i + 1).last() == part@);
        }
        if !part.is_empty() {
            out.push(part);
            assert(views(out@) =~= views(before).push(part@));
        }
    }
    assert(all.take(parts@.len() as int) =~= all);
    out
}

/// The lines of `s`.
pub fn lines<'a>(s: &'a str) -> (r: Vec<&'a str>)
    ensures
        views(r@) == lines_of(s@),
{
    let parts = split(s, '\n');
    let ghost all = views(parts@);
    proof {
        lemma_pieces_some(s@, is_char('\n'));
        assert(parts@.len() == all.len());
    }
    let last: usize = parts.len() - 1;
    let mut out: Vec<&'a str> = Vec::new();
    let ghost body = all.drop_last().map_values(|line: Seq<char>| without_cr(line));
    for i in 0..last
        invariant
            all == views(parts@),
            last == parts@.len() - 1,
            body == all.drop_last().map_values(|line: Seq<char>| without_cr(line)),
            views(out@) == body.take(i as int),
    {
        let ghost before = out@;
        let part = parts[i];
        let v = chars_of(part);
        let n: usize = v.len();
        let line = if n > 0 && v[n - 1] == '\r' {
            cut(part, 0, n - 1)
        } else {
            part
        };
        out.push(line);
        proof {
            assert(all[i as int] == part@);
            assert(line@ =~= without_cr(part@));
            assert(views(out@) =~= views(before).push(line@));
            assert(body.take(i + 1) =~= body.take(i as int).push(body[i as int]));
        }
    }
    assert(body.take(last as int) =~= body);
    let ghost before = out@;
    let rest = parts[last];
    assert(all.last() == rest@);
    if !rest.is_empty() {
        out.push(rest);
        assert(views(out@) =~= views(before).push(rest@));
        assert(views(out@) =~= lines_of(s@));
    } else {
        assert(views(out@) =~= lines_of(s@));
    }
    out
}

/// The strings of `parts` from number `from` on, with `sep` between them.
pub fn join_from(parts: &Vec<&str>, from: usize, sep: &str) -> (r: String)
    requires
        from <= parts@.len(),
    ensures
        r@ == joined(views(parts@).skip(from as int), sep@),
{
    let mut out = String::new();
    let ghost all = views(parts@).skip(from as int);
    let len: usize = parts.len();
    let n: usize = len - from;
    for i in 0..n
        invariant
            from + n == len,
            len == parts@.len(),
            all == views(parts@).skip(from as int),
            out@ == joined(all.take(i as int), sep@),
    {
        proof {
            assert(all.take(i + 1).drop_last() =~= all.take(i as int));
            assert(all[i as int] == parts@[from + i]@);
        }
        if i > 0 {
            out.append(sep);
        }
        out.append(parts[from + i]);
        assert(i == 0 ==> out@ =~= all[0]);
    }
    assert(all.take(n as int) =~= all);
    out
}

// ---------------------------------------------------------------------------
// Numbers
// ---------------------------------------------------------------------------
/// The decimal digit `d` as a character.
pub open spec fn digit_char(d: nat) -> char {
    (48 + d) as char
}

/// `n` in decimal digits.
pub open spec fn decimal(n: nat) -> Seq<char>
    decreases n,
{
    if n < 10 {
        seq![digit_char(n)]
    } else {
        decimal(n / 10).push(digit_char(n % 10))
    }
}

/// All characters are decimal digits.
pub open spec fn all_digits(s: Seq<char>) -> bool {
    forall|i: int| 0 <= i < s.len() ==> '0' <= #[trigger] s[i] <= '9'
}

/// The number that the decimal digits `s` write.
pub open spec fn digits_value(s: Seq<char>) -> nat
    decreases s.len(),
{
    if s.len() == 0 {
        0
    } else {
        10 * digits_value(s.drop_last()) + (s.last() as nat - 48) as nat
    }
}

/// The integer that `s` writes: an optional sign, then decimal digits and
/// nothing else.
pub open spec fn integer_of(s: Seq<char>) -> Option<int> {
    let signed = s.len() > 0 && (s[0] == '-' || s[0] == '+');
    let body = if signed {
        s.drop_first()
    } else {
        s
    };
    if body.len() == 0 || !all_digits(body) {
        None
    } else if signed && s[0] == '-' {
        Some(-(digits_value(body) as int))
    } else {
        Some(digits_value(body) as int)
    }
}

/// The integer that `s` writes, where a signed word of 64 bits holds it.
pub open spec fn i64_of(s: Seq<char>) -> Option<i64> {
    match integer_of(s) {
        Some(v) => if i64::MIN <= v <= i64::MAX {
            Some(v as i64)
        } else {
            None
        },
        None => None,
    }
}

/// `n` in decimal digits.
pub fn decimal_text(n: u64) -> (r: String)
    ensures
        r@ == decimal(n as nat),
    decreases n,
{
    let digit: u8 = 48 + (n % 10) as u8;
    if n < 10 {
        let mut out = String::new();
        out.push(digit as char);
        assert(out@ =~= decimal(n as nat));
        out
    } else {
        let mut out = decimal_text(n / 10);
        out.push(digit as char);
        out
    }
}

/// Value of the decimal digits `v`, or nothing where it is above the
/// magnitude of the least signed word of 64 bits.
fn magnitude(v: &[char]) -> (r: Option<u64>)
    requires
        all_digits(v@),
    ensures
        r is Some <==> digits_value(v@) <= 0x8000_0000_0000_0000,
        r matches Some(n) ==> n == digits_value(v@),
{
    let mut total: u64 = 0;
    let mut large = false;
    for i in 0..v.len()
        invariant
            all_digits(v@),
            large ==> digits_value(v@.take(i as int)) > 0x8000_0000_0000_0000,
            !large ==> total == digits_value(v@.take(i as int)) && total <= 0x8000_0000_0000_0000,
    {
        proof {
            assert(v@.take(i + 1).drop_last() =~= v@.take(i as int));
            assert(v@.take(i + 1).last() == v@[i as int]);
        }
        let digit: u64 = (v[i] as u64) - 48;
        if !large {
            if total > (0x8000_0000_0000_0000 - digit) / 10 {
                large = true;
            } else {
                total = total * 10 + digit;
            }
        }
    }
    assert(v@.take(v@.len() as int) =~= v@);
    if large {
        None
    } else {
        Some(total)
    }
}

fn only_digits(v: &[char]) -> (r: bool)
    ensures
        r == all_digits(v@),
{
    for i in 0..v.len()
        invariant
            forall|j: int| 0 <= j < i ==> '0' <= #[trigger] v@[j] <= '9',
    {
        let c = v[i];
        if c < '0' || '9' < c {
            assert(!('0' <= v@[i as int] <= '9'));
            return false;
        }
    }
    true
}

/// The integer that `s` writes, where a signed word of 64 bits holds it.
pub fn parse_i64(s: &str) -> (r: Option<i64>)
    ensures
        r == i64_of(s@),
{
    let v = chars_of(s);
    let len: usize = v.len();
    let signed = len > 0 && (v[0] == '-' || v[0] == '+');
    let negative = signed && v[0] == '-';
    let body = if signed {
        slice_subrange(v.as_slice(), 1, len)
    } else {
        v.as_slice()
    };
    proof {
        if signed {
            assert(body@ =~= s@.drop_first());
        }
    }
    if body.len() == 0 || !only_digits(body) {
        return None;
    }
    match magnitude(body) {
        None => None,
        Some(n) => if negative {
            if n == 0x8000_0000_0000_0000 {
                Some(i64::MIN)
            } else {
                Some(-(n as i64))
            }
        } else if n < 0x8000_0000_0000_0000 {
            Some(n as i64)
        } else {
            None
        },
    }
}

// ---------------------------------------------------------------------------
// Whole strings
// ---------------------------------------------------------------------------
/// `s` with each line feed and carriage return made a space.
pub open spec fn on_one_line(s: Seq<char>) -> Seq<char> {
    s.map_values(
        |c: char|
            if c == '\n' || c == '\r' {
                ' '
            } else {
                c
            },
    )
}

/// `s` with each line feed and carriage return made a space.
pub fn one_line(s: &str) -> (r: String)
    ensures
        r@ == on_one_line(s@),
{
    let v = chars_of(s);
    let mut out = String::new();
    for i in 0..v.len()
        invariant
            v@ == s@,
            out@ == on_one_line(s@).take(i as int),
    {
        let c = v[i];
        let ghost before = out@;
        if c == '\n' || c == '\r' {
            out.push(' ');
        } else {
            out.push(c);
        }
        assert(on_one_line(s@).take(i + 1) =~= before.push(on_one_line(s@)[i as int]));
    }
    assert(on_one_line(s@).take(s@.len() as int) =~= on_one_line(s@));
    out
}

/// `s` with its ASCII letters in lower case.
pub open spec fn ascii_lowered(s: Seq<char>) -> Seq<char> {
    s.map_values(|c: char| ascii_lower(c))
}

/// Whether two strings are the same but for the case of ASCII letters.
pub fn same_ignoring_case(a: &str, b: &str) -> (r: bool)
    ensures
        r == (ascii_lowered(a@) == ascii_lowered(b@)),
{
    let x = chars_of(a);
    let y = chars_of(b);
    if x.len() != y.len() {
        assert(ascii_lowered(a@).len() != ascii_lowered(b@).len());
        return false;
    }
    for i in 0..x.len()
        invariant
            x@ == a@,
            y@ == b@,
            x@.len() == y@.len(),
            forall|j: int| 0 <= j < i ==> ascii_lower(#[trigger] a@[j]) == ascii_lower(b@[j]),
    {
        if lower_ascii(x[i]) != lower_ascii(y[i]) {
            assert(ascii_lowered(a@)[i as int] != ascii_lowered(b@)[i as int]);
            return false;
        }
    }
    assert(ascii_lowered(a@) =~= ascii_lowered(b@));
    true
}

/// `s` without the prefix `p`, where it has it.
pub open spec fn without_prefix(s: Seq<char>, p: Seq<char>) -> Seq<char> {
    if p.is_prefix_of(s) {
        s.skip(p.len() as int)
    } else {
        s
    }
}

/// `s` without the prefix `p`, where it has it.
pub fn strip_prefix<'a>(s: &'a str, p: &str) -> (r: &'a str)
    ensures
        r@ == without_prefix(s@, p@),
{
    if starts_with(s, p) {
        let r = cut(s, p.unicode_len(), s.unicode_len());
        assert(r@ =~= s@.skip(p@.len() as int));
        r
    } else {
        s
    }
}

/// `s` begins with `p`, but for the case of ASCII letters.
pub open spec fn begins_ignoring_case(s: Seq<char>, p: Seq<char>) -> bool {
    p.len() <= s.len() && ascii_lowered(s.take(p.len() as int)) == ascii_lowered(p)
}

/// Whether `s` begins with `p`, but for the case of ASCII letters.
pub fn starts_with_ignoring_case(s: &str, p: &str) -> (r: bool)
    ensures
        r == begins_ignoring_case(s@, p@),
{
    let len: usize = p.unicode_len();
    if len > s.unicode_len() {
        return false;
    }
    let head = cut(s, 0, len);
    assert(head@ =~= s@.take(p@.len() as int));
    same_ignoring_case(head, p)
}

/// What `str::to_lowercase` makes of the characters `s`.
pub uninterp spec fn lowercase_of(s: Seq<char>) -> Seq<char>;

/// `str::to_lowercase` maps each string to one string in lower case, as
/// Unicode defines it. Of ASCII text the contract also says which one: each
/// ASCII letter becomes its lower case, and the rest stays.
pub assume_specification[ str::to_lowercase ](s: &str) -> (r: std::string::String)
    ensures
        r@ == lowercase_of(s@),
        is_ascii_chars(s@) ==> r@ == ascii_lowered(s@),
;

// ---------------------------------------------------------------------------
// Laws
// ---------------------------------------------------------------------------
/// Text is found where it stands, if it is not found before its last
/// character there.
pub proof fn law_found_where_it_stands(s: Seq<char>, p: Seq<char>, i: int)
    requires
        p.len() > 0,
        occurs_at(s, p, i),
        !contains_text(s.take(i + p.len() - 1), p),
    ensures
        position_of(s, p) == Some(i),
{
    let front = s.take(i + p.len() - 1);
    assert forall|j: int| 0 <= j < i implies !occurs_at(s, p, j) by {
        if occurs_at(s, p, j) {
            assert(front.subrange(j, j + p.len()) =~= s.subrange(j, j + p.len()));
            assert(occurs_at(front, p, j));
        }
    }
    lemma_position_of(s, p, i);
}

/// Trimmed text has no white space at its ends, and stays as it is when it is
/// trimmed again.
pub proof fn law_trimmed_has_no_white_ends(s: Seq<char>)
    ensures
        trimmed(s).len() > 0 ==> !white_space(trimmed(s)[0]) && !white_space(trimmed(s).last()),
        trimmed(trimmed(s)) == trimmed(s),
{
    let t = skip_run(s, white());
    lemma_run_len_is(s, white());
    lemma_tail_len_is(t, white());
    let r = trimmed(s);
    if r.len() > 0 {
        assert(r[0] == t[0]);
        assert(t[0] == s[run_len(s, white()) as int]);
        assert(!white()(s[run_len(s, white()) as int]));
        assert(r.last() == t[t.len() - tail_len(t, white()) - 1]);
        assert(!white()(r.last()));
    }
    law_trim_keeps_what_has_no_white_ends(r);
}

/// Text without white space at its ends is not changed by trimming.
pub proof fn law_trim_keeps_what_has_no_white_ends(s: Seq<char>)
    requires
        s.len() > 0 ==> !white_space(s[0]) && !white_space(s.last()),
    ensures
        trimmed(s) == s,
{
    lemma_run_len(s, white(), 0);
    assert(skip_run(s, white()) =~= s);
    lemma_tail_len(s, white(), 0);
    assert(trimmed(s) =~= s);
}

/// Pieces that were joined by a separator come apart again, where none of
/// them holds a separator.
pub proof fn law_joined_pieces_come_apart(
    parts: Seq<Seq<char>>,
    sep: char,
    p: spec_fn(char) -> bool,
)
    requires
        parts.len() > 0,
        p(sep),
        forall|i: int, j: int|
            0 <= i < parts.len() && 0 <= j < parts[i].len() ==> !p(#[trigger] parts[i][j]),
    ensures
        pieces(joined(parts, seq![sep]), p) == parts,
    decreases parts.len(),
{
    let last = parts.last();
    assert forall|j: int| 0 <= j < last.len() implies !p(#[trigger] last[j]) by {
        assert(!p(parts[parts.len() - 1][j]));
    }
    lemma_one_piece(last, p);
    if parts.len() == 1 {
        assert(seq![last] =~= parts);
    } else {
        let front = parts.drop_last();
        assert forall|i: int, j: int| 0 <= i < front.len() && 0 <= j < front[i].len() implies !p(
            #[trigger] front[i][j],
        ) by {
            assert(!p(parts[i][j]));
        }
        law_joined_pieces_come_apart(front, sep, p);
        let text = joined(front, seq![sep]);
        lemma_pieces_concat(text, sep, last, p);
        assert(text + seq![sep] + last =~= joined(parts, seq![sep]));
        assert(front + seq![last] =~= parts);
    }
}

/// Text without a separator is one piece.
pub proof fn lemma_one_piece(s: Seq<char>, p: spec_fn(char) -> bool)
    requires
        forall|j: int| 0 <= j < s.len() ==> !p(#[trigger] s[j]),
    ensures
        pieces(s, p) == seq![s],
    decreases s.len(),
{
    if s.len() > 0 {
        assert(!p(s[0]));
        let rest = s.drop_first();
        assert forall|j: int| 0 <= j < rest.len() implies !p(#[trigger] rest[j]) by {
            assert(rest[j] == s[j + 1]);
        }
        lemma_one_piece(rest, p);
        assert(seq![s[0]] + rest =~= s);
        assert(pieces(s, p) =~= seq![s]);
    } else {
        assert(s =~= Seq::empty());
        assert(pieces(s, p) =~= seq![s]);
    }
}

/// A separator parts the pieces before it from those behind it.
pub proof fn lemma_pieces_concat(a: Seq<char>, sep: char, b: Seq<char>, p: spec_fn(char) -> bool)
    requires
        p(sep),
    ensures
        pieces(a + seq![sep] + b, p) == pieces(a, p) + pieces(b, p),
    decreases a.len(),
{
    let s = a + seq![sep] + b;
    lemma_pieces_some(b, p);
    if a.len() == 0 {
        assert(s[0] == sep);
        assert(s.drop_first() =~= b);
        assert(pieces(s, p) =~= pieces(a, p) + pieces(b, p));
    } else {
        let rest = a.drop_first();
        assert(s[0] == a[0]);
        assert(s.drop_first() =~= rest + seq![sep] + b);
        lemma_pieces_concat(rest, sep, b, p);
        lemma_pieces_some(rest, p);
        if p(a[0]) {
            assert(pieces(s, p) =~= pieces(a, p) + pieces(b, p));
        } else {
            let parts = pieces(rest, p);
            assert(glue(seq![a[0]], parts + pieces(b, p)) =~= glue(seq![a[0]], parts) + pieces(
                b,
                p,
            ));
        }
    }
}

/// A word: not empty, and without white space.
pub open spec fn is_word(w: Seq<char>) -> bool {
    w.len() > 0 && forall|j: int| 0 <= j < w.len() ==> !white_space(#[trigger] w[j])
}

/// Words that were joined by spaces come apart again.
pub proof fn law_joined_words_come_apart(words: Seq<Seq<char>>)
    requires
        forall|i: int| 0 <= i < words.len() ==> is_word(#[trigger] words[i]),
    ensures
        words_of(joined(words, " "@)) == words,
{
    reveal_strlit(" ");
    assert(" "@ =~= seq![' ']);
    reveal(Seq::filter);
    if words.len() == 0 {
        let none = Seq::<char>::empty();
        assert(joined(words, " "@) =~= none);
        assert(pieces(none, white()) =~= seq![none]);
        assert(seq![none].drop_last() =~= Seq::empty());
        reveal_with_fuel(Seq::filter, 2);
        assert(words_of(none) =~= words);
    } else {
        assert forall|i: int, j: int| 0 <= i < words.len() && 0 <= j < words[i].len() implies !(
        white()(#[trigger] words[i][j])) by {
            assert(is_word(words[i]));
        }
        law_joined_pieces_come_apart(words, ' ', white());
        lemma_filter_keeps(words, not_empty());
    }
}

proof fn lemma_filter_keeps(parts: Seq<Seq<char>>, p: spec_fn(Seq<char>) -> bool)
    requires
        forall|i: int| 0 <= i < parts.len() ==> p(#[trigger] parts[i]),
    ensures
        parts.filter(p) == parts,
    decreases parts.len(),
{
    reveal(Seq::filter);
    if parts.len() > 0 {
        let front = parts.drop_last();
        assert forall|i: int| 0 <= i < front.len() implies p(#[trigger] front[i]) by {
            assert(front[i] == parts[i]);
        }
        lemma_filter_keeps(front, p);
        assert(front.push(parts.last()) =~= parts);
    } else {
        assert(parts.filter(p) =~= parts);
    }
}

/// White space parts the words before it from those behind it.
pub proof fn lemma_words_concat(a: Seq<char>, c: char, b: Seq<char>)
    requires
        white_space(c),
    ensures
        words_of(a + seq![c] + b) == words_of(a) + words_of(b),
{
    lemma_pieces_concat(a, c, b, white());
    Seq::filter_distributes_over_add(pieces(a, white()), pieces(b, white()), not_empty());
}

/// No text, no words.
pub proof fn lemma_no_words()
    ensures
        words_of(Seq::empty()) == Seq::<Seq<char>>::empty(),
{
    let none = Seq::<char>::empty();
    law_joined_words_come_apart(Seq::empty());
    assert(joined(Seq::empty(), " "@) =~= none);
}

/// White space around a text does not matter to its words.
pub proof fn law_white_ends_hold_no_words(before: Seq<char>, s: Seq<char>, after: Seq<char>)
    requires
        all_white(before),
        all_white(after),
    ensures
        words_of(before + s + after) == words_of(s),
    decreases before.len() + after.len(),
{
    let none = Seq::<char>::empty();
    lemma_no_words();
    if before.len() > 0 {
        let rest = before.drop_first();
        assert forall|j: int| 0 <= j < rest.len() implies white_space(#[trigger] rest[j]) by {
            assert(rest[j] == before[j + 1]);
        }
        law_white_ends_hold_no_words(rest, s, after);
        lemma_words_concat(none, before[0], rest + s + after);
        assert(none + seq![before[0]] + (rest + s + after) =~= before + s + after);
        assert(words_of(none) + words_of(s) =~= words_of(s));
    } else if after.len() > 0 {
        let rest = after.drop_last();
        law_white_ends_hold_no_words(before, s, rest);
        lemma_words_concat(before + s + rest, after.last(), none);
        assert(before + s + rest + seq![after.last()] + none =~= before + s + after);
        assert(words_of(s) + words_of(none) =~= words_of(s));
    } else {
        assert(before + s + after =~= s);
    }
}

/// Trimming keeps the words of a text.
pub proof fn law_trimming_keeps_the_words(s: Seq<char>)
    ensures
        words_of(trimmed(s)) == words_of(s),
{
    lemma_trimmed_stands_in(s);
    let (before, after) = choose|before: Seq<char>, after: Seq<char>|
        #![trigger all_white(before), all_white(after)]
        all_white(before) && all_white(after) && s == before + trimmed(s) + after;
    law_white_ends_hold_no_words(before, trimmed(s), after);
}

/// A word in front, up to white space or the end, is the first of the words.
pub proof fn law_first_word_comes_first(word: Seq<char>, tail: Seq<char>)
    requires
        is_word(word),
        tail.len() > 0 ==> white_space(tail[0]),
    ensures
        words_of(word + tail) == seq![word] + words_of(tail),
{
    let none = Seq::<char>::empty();
    let one = seq![word];
    assert forall|i: int| 0 <= i < one.len() implies is_word(#[trigger] one[i]) by {}
    law_joined_words_come_apart(one);
    lemma_no_words();
    if tail.len() > 0 {
        let rest = tail.drop_first();
        lemma_words_concat(word, tail[0], rest);
        lemma_words_concat(none, tail[0], rest);
        assert(word + seq![tail[0]] + rest =~= word + tail);
        assert(none + seq![tail[0]] + rest =~= tail);
        assert(words_of(none) + words_of(rest) =~= words_of(rest));
    } else {
        assert(word + tail =~= word);
        assert(tail =~= none);
        assert(one + words_of(none) =~= one);
    }
}

/// Joined words neither begin nor end in white space.
pub proof fn law_joined_words_have_no_white_ends(words: Seq<Seq<char>>)
    requires
        forall|i: int| 0 <= i < words.len() ==> is_word(#[trigger] words[i]),
    ensures
        trimmed(joined(words, " "@)) == joined(words, " "@),
{
    lemma_joined_ends(words);
    law_trim_keeps_what_has_no_white_ends(joined(words, " "@));
}

proof fn lemma_joined_ends(words: Seq<Seq<char>>)
    requires
        forall|i: int| 0 <= i < words.len() ==> is_word(#[trigger] words[i]),
    ensures
        words.len() > 0 ==> {
            let s = joined(words, " "@);
            s.len() > 0 && !white_space(s[0]) && !white_space(s.last())
        },
        words.len() == 0 ==> joined(words, " "@).len() == 0,
    decreases words.len(),
{
    if words.len() > 0 {
        assert(is_word(words.last()));
        if words.len() == 1 {
            assert(is_word(words[0]));
        } else {
            let front = words.drop_last();
            assert forall|i: int| 0 <= i < front.len() implies is_word(#[trigger] front[i]) by {
                assert(front[i] == words[i]);
            }
            lemma_joined_ends(front);
        }
    }
}

/// An integer in decimal digits, with a sign where it is below zero.
pub open spec fn signed_decimal(n: int) -> Seq<char> {
    if n < 0 {
        seq!['-'] + decimal((-n) as nat)
    } else {
        decimal(n as nat)
    }
}

/// An integer that is written out in decimal digits is read back.
pub proof fn law_integer_reads_back(n: i64)
    ensures
        i64_of(signed_decimal(n as int)) == Some(n),
{
    let s = signed_decimal(n as int);
    if n < 0 {
        let digits = decimal((-(n as int)) as nat);
        lemma_decimal((-(n as int)) as nat);
        assert(s[0] == '-');
        assert(s.drop_first() =~= digits);
    } else {
        lemma_decimal(n as nat);
        assert('0' <= s[0] <= '9');
    }
}

/// What writes an integer is a word.
pub proof fn lemma_integer_is_word(s: Seq<char>)
    requires
        i64_of(s) is Some,
    ensures
        is_word(s),
{
    let signed = s.len() > 0 && (s[0] == '-' || s[0] == '+');
    assert forall|j: int| 0 <= j < s.len() implies !white_space(#[trigger] s[j]) by {
        if signed {
            if j > 0 {
                assert(s.drop_first()[j - 1] == s[j]);
            }
        } else {
            assert('0' <= s[j] <= '9');
        }
    }
}

proof fn lemma_decimal(n: nat)
    ensures
        decimal(n).len() > 0,
        all_digits(decimal(n)),
        digits_value(decimal(n)) == n,
    decreases n,
{
    if n >= 10 {
        lemma_decimal(n / 10);
        let s = decimal(n);
        assert(s.drop_last() =~= decimal(n / 10));
        assert forall|i: int| 0 <= i < s.len() implies '0' <= #[trigger] s[i] <= '9' by {
            if i < s.len() - 1 {
                assert(s[i] == decimal(n / 10)[i]);
            }
        }
    } else {
        let s = decimal(n);
        assert(s.drop_last() =~= Seq::empty());
        assert(digits_value(s.drop_last()) == 0);
    }
}

/// There is nothing but white space.
pub open spec fn all_white(s: Seq<char>) -> bool {
    forall|j: int| 0 <= j < s.len() ==> white_space(#[trigger] s[j])
}

/// White space around a text does not matter to what trimming leaves.
pub proof fn law_white_ends_are_trimmed(before: Seq<char>, s: Seq<char>, after: Seq<char>)
    requires
        all_white(before),
        all_white(after),
    ensures
        trimmed(before + s + after) == trimmed(s),
{
    let whole = before + s + after;
    let n = before.len() as int;
    lemma_run_len_is(s, white());
    let k = run_len(s, white()) as int;
    assert forall|j: int| 0 <= j < n + k implies white()(#[trigger] whole[j]) by {
        if j < n {
            assert(whole[j] == before[j]);
        } else {
            assert(whole[j] == s[j - n]);
        }
    }
    if k < s.len() {
        assert(whole[n + k] == s[k]);
        lemma_run_len(whole, white(), n + k);
        let rest = s.skip(k);
        assert(skip_run(whole, white()) =~= rest + after);
        lemma_tail_len_is(rest, white());
        let t = tail_len(rest, white()) as int;
        let long = rest + after;
        assert(rest[0] == s[k]);
        assert(t < rest.len());
        assert forall|j: int| long.len() - t - after.len() <= j < long.len() implies white()(
            #[trigger] long[j],
        ) by {
            if j < rest.len() {
                assert(long[j] == rest[j]);
            } else {
                assert(long[j] == after[j - rest.len()]);
            }
        }
        assert(long[long.len() - t - after.len() - 1] == rest[rest.len() - t - 1]);
        lemma_tail_len(long, white(), t + after.len());
        assert(trimmed(whole) =~= trimmed(s));
    } else {
        assert forall|j: int| 0 <= j < whole.len() implies white()(#[trigger] whole[j]) by {
            if j >= n + k {
                assert(whole[j] == after[j - n - k]);
            }
        }
        lemma_run_len(whole, white(), whole.len() as int);
        lemma_tail_len_is(skip_run(whole, white()), white());
        lemma_tail_len_is(skip_run(s, white()), white());
        assert(trimmed(whole) =~= trimmed(s));
    }
}

/// What trimming takes off is white space.
pub proof fn lemma_trimmed_stands_in(s: Seq<char>)
    ensures
        exists|before: Seq<char>, after: Seq<char>|
            #![trigger all_white(before), all_white(after)]
            all_white(before) && all_white(after) && s == before + trimmed(s) + after,
{
    lemma_run_len_is(s, white());
    let n = run_len(s, white()) as int;
    let t = skip_run(s, white());
    lemma_tail_len_is(t, white());
    let k = t.len() - tail_len(t, white());
    let before = s.take(n);
    let after = t.skip(k);
    assert forall|j: int| 0 <= j < before.len() implies white_space(#[trigger] before[j]) by {
        assert(white()(s[j]));
    }
    assert forall|j: int| 0 <= j < after.len() implies white_space(#[trigger] after[j]) by {
        assert(white()(t[k + j]));
    }
    assert(all_white(before) && all_white(after));
    assert(s =~= before + trimmed(s) + after);
}

/// Behind a character, trimming the end first and then both ends is trimming
/// both ends.
pub proof fn lemma_trim_behind_char(c: char, s: Seq<char>)
    ensures
        ({
            let tail = trimmed_end(seq![c] + s);
            &&& tail.len() > 0 ==> tail[0] == c && trimmed(tail.skip(1)) == trimmed(s)
            &&& tail.len() == 0 ==> trimmed(s) == Seq::<char>::empty()
        }),
{
    let none = Seq::<char>::empty();
    let whole = seq![c] + s;
    let tail = trimmed_end(whole);
    lemma_tail_len_is(s, white());
    let t = tail_len(s, white()) as int;
    if t < s.len() {
        assert forall|j: int| whole.len() - t <= j < whole.len() implies white()(
            #[trigger] whole[j],
        ) by {
            assert(whole[j] == s[j - 1]);
        }
        assert(whole[whole.len() - t - 1] == s[s.len() - t - 1]);
        lemma_tail_len(whole, white(), t);
        let kept = s.take(s.len() - t);
        let after = s.skip(s.len() - t);
        assert(tail.skip(1) =~= kept);
        assert forall|j: int| 0 <= j < after.len() implies white_space(#[trigger] after[j]) by {
            assert(white()(s[s.len() - t + j]));
        }
        law_white_ends_are_trimmed(none, kept, after);
        assert(none + kept + after =~= s);
    } else {
        assert forall|j: int| 0 <= j < s.len() implies white_space(#[trigger] s[j]) by {
            assert(white()(s[j]));
        }
        law_white_ends_are_trimmed(s, none, none);
        assert(s + none + none =~= s);
        law_trim_keeps_what_has_no_white_ends(none);
        lemma_tail_len_is(whole, white());
        if tail.len() > 0 {
            assert forall|j: int| whole.len() - s.len() <= j < whole.len() implies white()(
                #[trigger] whole[j],
            ) by {
                assert(whole[j] == s[j - 1]);
            }
            assert(tail_len(whole, white()) == s.len()) by {
                if tail_len(whole, white()) < s.len() {
                    let at = whole.len() - tail_len(whole, white()) - 1;
                    assert(white()(whole[at]));
                }
            }
            assert(tail.skip(1) =~= none);
        }
    }
}

/// Trimming a text that begins in a word only trims the end of what follows
/// the word.
pub proof fn lemma_trim_behind_word(word: Seq<char>, rest: Seq<char>)
    requires
        is_word(word),
    ensures
        trimmed(word + rest) == word + trimmed_end(rest),
{
    let s = word + rest;
    assert(s[0] == word[0]);
    lemma_run_len(s, white(), 0);
    assert(skip_run(s, white()) =~= s);
    lemma_tail_len_is(rest, white());
    let t = tail_len(rest, white()) as int;
    assert forall|j: int| s.len() - t <= j < s.len() implies white()(#[trigger] s[j]) by {
        assert(s[j] == rest[j - word.len()]);
    }
    if t < rest.len() {
        assert(s[s.len() - t - 1] == rest[rest.len() - t - 1]);
    } else {
        assert(s[s.len() - t - 1] == word[word.len() - 1]);
    }
    lemma_tail_len(s, white(), t);
    assert(trimmed(s) =~= word + trimmed_end(rest));
}

/// Text is contained where it stands between two others, and nowhere else.
pub proof fn law_contained_text_stands_between(s: Seq<char>, p: Seq<char>)
    ensures
        contains_text(s, p) <==> exists|a: Seq<char>, b: Seq<char>| s == #[trigger] (a + p + b),
{
    if contains_text(s, p) {
        let i = choose|i: int| occurs_at(s, p, i);
        let a = s.take(i);
        let b = s.skip(i + p.len());
        assert(s =~= a + p + b) by {
            assert forall|j: int| 0 <= j < s.len() implies s[j] == (a + p + b)[j] by {
                if i <= j < i + p.len() {
                    assert(s.subrange(i, i + p.len())[j - i] == p[j - i]);
                }
            }
        }
    }
    if exists|a: Seq<char>, b: Seq<char>| s == #[trigger] (a + p + b) {
        let (a, b) = choose|a: Seq<char>, b: Seq<char>| s == #[trigger] (a + p + b);
        assert(s.subrange(a.len() as int, a.len() as int + p.len()) =~= p);
        assert(occurs_at(s, p, a.len() as int));
    }
}

/// The position of a text is where it stands, and it stands nowhere before;
/// text that is not contained has none.
pub proof fn law_position_is_the_first(s: Seq<char>, p: Seq<char>)
    ensures
        position_of(s, p) matches Some(i) ==> {
            &&& 0 <= i <= s.len() - p.len()
            &&& s.subrange(i, i + p.len()) == p
            &&& forall|j: int| 0 <= j < i ==> #[trigger] s.subrange(j, j + p.len()) != p
        },
        position_of(s, p) is None ==> forall|a: Seq<char>, b: Seq<char>|
            s != #[trigger] (a + p + b),
{
    lemma_position_of_some(s, p);
    law_contained_text_stands_between(s, p);
    if let Some(i) = position_of(s, p) {
        assert forall|j: int| 0 <= j < i implies #[trigger] s.subrange(j, j + p.len()) != p by {
            assert(!occurs_at(s, p, j));
        }
    }
}

/// The position of a character is the first place that holds it; one that no
/// place holds has none.
pub proof fn law_position_of_char_is_the_first(s: Seq<char>, c: char)
    ensures
        position_of_char(s, c) matches Some(i) ==> 0 <= i < s.len() && s[i] == c && !s.take(
            i,
        ).contains(c),
        position_of_char(s, c) is None ==> !s.contains(c),
{
    lemma_position_of_char_some(s, c);
    if let Some(i) = position_of_char(s, c) {
        let front = s.take(i);
        if front.contains(c) {
            let j = choose|j: int| 0 <= j < front.len() && front[j] == c;
            assert(s[j] == c);
        }
    }
}

/// The first word ends at the first white space, and what stands behind that
/// is the rest.
pub proof fn law_first_word_is_cut_off(word: Seq<char>, space: char, rest: Seq<char>)
    requires
        forall|j: int| 0 <= j < word.len() ==> !white_space(#[trigger] word[j]),
        white_space(space),
    ensures
        split_first_word(word + (seq![space] + rest)) == (word, rest),
        split_first_word(word) == (word, Seq::<char>::empty()),
{
    let s = word + (seq![space] + rest);
    let n = word.len() as int;
    assert forall|j: int| 0 <= j < n implies not_white()(#[trigger] s[j]) by {
        assert(s[j] == word[j]);
    }
    assert forall|j: int| 0 <= j < n implies not_white()(#[trigger] word[j]) by {}
    assert(s[n] == space);
    lemma_run_len(s, not_white(), n);
    lemma_run_len(word, not_white(), n);
    assert(s.take(n) =~= word);
    assert(word.take(n) =~= word);
    assert(s.skip(n + 1) =~= rest);
}

/// One part joined is that part, and the separator stands between what two
/// groups of parts make.
pub proof fn law_joined_parts_stand_apart(a: Seq<Seq<char>>, b: Seq<Seq<char>>, sep: Seq<char>)
    ensures
        a.len() == 0 ==> joined(a, sep) == Seq::<char>::empty(),
        a.len() == 1 ==> joined(a, sep) == a[0],
        a.len() > 0 && b.len() > 0 ==> joined(a + b, sep) == joined(a, sep) + sep + joined(b, sep),
    decreases b.len(),
{
    if a.len() > 0 && b.len() > 0 {
        let all = a + b;
        let front = b.drop_last();
        assert(all.last() == b.last());
        assert(all.drop_last() =~= a + front);
        if front.len() == 0 {
            assert(a + front =~= a);
            assert(b.last() == b[0]);
        } else {
            law_joined_parts_stand_apart(a, front, sep);
            assert(joined(a, sep) + sep + (joined(front, sep) + sep + b.last()) =~= joined(a, sep)
                + sep + joined(front, sep) + sep + b.last());
        }
    }
}

/// A line ends in a line feed, with or without a carriage return before it,
/// and the lines of what follows come after it. The last line may lack its
/// end.
pub proof fn law_lines_come_one_by_one(line: Seq<char>, rest: Seq<char>)
    requires
        !line.contains('\n'),
    ensures
        lines_of(line + "\r\n"@ + rest) == seq![line] + lines_of(rest),
        line.len() == 0 || line.last() != '\r' ==> lines_of(line + "\n"@ + rest) == seq![line]
            + lines_of(rest),
        line.len() > 0 ==> lines_of(line) == seq![line],
        lines_of(Seq::empty()) == Seq::<Seq<char>>::empty(),
{
    reveal_strlit("\r\n");
    reveal_strlit("\n");
    let none = Seq::<char>::empty();
    let with_cr = line.push('\r');
    lemma_line_first(line, rest);
    assert(!with_cr.contains('\n')) by {
        assert forall|j: int| 0 <= j < with_cr.len() implies with_cr[j] != '\n' by {
            if j < line.len() {
                assert(line.contains(line[j]));
            }
        }
    }
    lemma_line_first(with_cr, rest);
    assert(with_cr + seq!['\n'] + rest =~= line + "\r\n"@ + rest);
    assert(line + seq!['\n'] + rest =~= line + "\n"@ + rest);
    assert(with_cr.drop_last() =~= line);
    assert forall|j: int| 0 <= j < line.len() implies !(is_char('\n')(#[trigger] line[j])) by {
        assert(line.contains(line[j]));
    }
    lemma_one_piece(line, is_char('\n'));
    lemma_one_piece(none, is_char('\n'));
    assert(seq![line].drop_last() =~= Seq::empty());
    assert(seq![none].drop_last() =~= Seq::empty());
    if line.len() > 0 {
        assert(lines_of(line) =~= seq![line]);
    }
    assert(lines_of(none) =~= Seq::<Seq<char>>::empty());
}

proof fn lemma_line_first(line: Seq<char>, rest: Seq<char>)
    requires
        !line.contains('\n'),
    ensures
        lines_of(line + seq!['\n'] + rest) == seq![without_cr(line)] + lines_of(rest),
{
    assert forall|j: int| 0 <= j < line.len() implies !(is_char('\n')(#[trigger] line[j])) by {
        assert(line.contains(line[j]));
    }
    lemma_one_piece(line, is_char('\n'));
    lemma_pieces_concat(line, '\n', rest, is_char('\n'));
    lemma_pieces_some(rest, is_char('\n'));
    let more = pieces(rest, is_char('\n'));
    let parts = seq![line] + more;
    assert(parts.last() == more.last());
    assert(parts.drop_last() =~= seq![line] + more.drop_last());
    assert(lines_of(line + seq!['\n'] + rest) =~= seq![without_cr(line)] + lines_of(rest));
}

/// Decimal digits follow each other from the highest to the lowest, and no
/// number but zero begins in a zero.
pub proof fn law_decimal_digits(n: nat, d: nat)
    requires
        d < 10,
    ensures
        decimal(d) == seq!["0123456789"@[d as int]],
        n > 0 ==> decimal(10 * n + d) == decimal(n).push("0123456789"@[d as int]),
        n > 0 ==> decimal(n)[0] != '0',
{
    reveal_strlit("0123456789");
    assert(digit_char(d) == "0123456789"@[d as int]);
    assert((10 * n + d) / 10 == n && (10 * n + d) % 10 == d);
    if n > 0 {
        lemma_decimal_first(n);
    }
}

proof fn lemma_decimal_first(n: nat)
    requires
        n > 0,
    ensures
        decimal(n).len() > 0,
        decimal(n)[0] != '0',
    decreases n,
{
    if n >= 10 {
        lemma_decimal_first(n / 10);
    }
}

/// So many zeros.
pub open spec fn zeros(k: nat) -> Seq<char> {
    Seq::new(k, |i: int| '0')
}

/// What is read as an integer is its decimal digits, behind any number of
/// zeros and a sign, which may be missing where the integer is not below zero;
/// nothing else is.
pub proof fn law_integers_are_read_from_their_digits(s: Seq<char>, n: i64)
    ensures
        i64_of(s) == Some(n) <==> exists|k: nat|
            {
                ||| n >= 0 && s == #[trigger] zeros(k) + decimal(n as nat)
                ||| n >= 0 && s == seq!['+'] + (zeros(k) + decimal(n as nat))
                ||| n <= 0 && s == seq!['-'] + (zeros(k) + decimal((-(n as int)) as nat))
            },
{
    let m: nat = if n >= 0 {
        n as nat
    } else {
        (-(n as int)) as nat
    };
    if i64_of(s) == Some(n) {
        let signed = s.len() > 0 && (s[0] == '-' || s[0] == '+');
        let body = if signed {
            s.drop_first()
        } else {
            s
        };
        lemma_leading_zeros(body);
        let k = (body.len() - decimal(digits_value(body)).len()) as nat;
        assert(digits_value(body) == m);
        assert(body == zeros(k) + decimal(m));
        if signed {
            assert(s =~= seq![s[0]] + body);
        }
    }
    if exists|k: nat|
        {
            ||| n >= 0 && s == #[trigger] zeros(k) + decimal(n as nat)
            ||| n >= 0 && s == seq!['+'] + (zeros(k) + decimal(n as nat))
            ||| n <= 0 && s == seq!['-'] + (zeros(k) + decimal((-(n as int)) as nat))
        } {
        let k = choose|k: nat|
            {
                ||| n >= 0 && s == #[trigger] zeros(k) + decimal(n as nat)
                ||| n >= 0 && s == seq!['+'] + (zeros(k) + decimal(n as nat))
                ||| n <= 0 && s == seq!['-'] + (zeros(k) + decimal((-(n as int)) as nat))
            };
        let digits = zeros(k) + decimal(m);
        lemma_zeros_in_front(k, m);
        assert('0' <= digits[0] <= '9');
        if s != digits {
            assert(s.drop_first() =~= digits);
        }
    }
}

proof fn lemma_leading_zeros(d: Seq<char>)
    requires
        d.len() > 0,
        all_digits(d),
    ensures
        decimal(digits_value(d)).len() <= d.len(),
        d == zeros((d.len() - decimal(digits_value(d)).len()) as nat) + decimal(digits_value(d)),
    decreases d.len(),
{
    let front = d.drop_last();
    let c = (d.last() as nat - 48) as nat;
    let v = digits_value(d);
    assert('0' <= d[d.len() - 1] <= '9');
    assert(digit_char(c) == d.last());
    if front.len() == 0 {
        assert(digits_value(front) == 0);
        assert(d =~= zeros(0) + decimal(v));
    } else {
        assert forall|i: int| 0 <= i < front.len() implies '0' <= #[trigger] front[i] <= '9' by {
            assert(front[i] == d[i]);
        }
        lemma_leading_zeros(front);
        let w = digits_value(front);
        let k = (front.len() - decimal(w).len()) as nat;
        assert(front == zeros(k) + decimal(w));
        assert(d =~= front.push(d.last()));
        if w == 0 {
            assert(decimal(0) =~= seq!['0']);
            assert(front =~= zeros(k + 1));
            assert(decimal(v) =~= seq![d.last()]);
            assert(zeros(k + 1).push(d.last()) =~= zeros(k + 1) + decimal(v));
            assert(d =~= zeros(k + 1) + decimal(v));
        } else {
            assert(v / 10 == w && v % 10 == c);
            assert(decimal(v) =~= decimal(w).push(d.last()));
            assert((zeros(k) + decimal(w)).push(d.last()) =~= zeros(k) + decimal(v));
            assert(d =~= zeros(k) + decimal(v));
        }
    }
}

proof fn lemma_zeros_in_front(k: nat, m: nat)
    ensures
        all_digits(zeros(k) + decimal(m)),
        digits_value(zeros(k) + decimal(m)) == m,
        (zeros(k) + decimal(m)).len() > 0,
    decreases k,
{
    lemma_decimal(m);
    let s = zeros(k) + decimal(m);
    if k == 0 {
        assert(s =~= decimal(m));
    } else {
        let rest = zeros((k - 1) as nat) + decimal(m);
        lemma_zeros_in_front((k - 1) as nat, m);
        assert(s =~= seq!['0'] + rest);
        lemma_zero_in_front(rest);
        assert forall|i: int| 0 <= i < s.len() implies '0' <= #[trigger] s[i] <= '9' by {
            if i > 0 {
                assert(s[i] == rest[i - 1]);
            }
        }
    }
}

proof fn lemma_zero_in_front(s: Seq<char>)
    ensures
        digits_value(seq!['0'] + s) == digits_value(s),
    decreases s.len(),
{
    let t = seq!['0'] + s;
    if s.len() == 0 {
        assert(t.drop_last() =~= s);
    } else {
        assert(t.drop_last() =~= seq!['0'] + s.drop_last());
        assert(t.last() == s.last());
        lemma_zero_in_front(s.drop_last());
    }
}

/// On one line, line feeds and carriage returns are spaces and all else stands
/// where it stood.
pub proof fn law_one_line_keeps_the_places(s: Seq<char>)
    ensures
        on_one_line(s).len() == s.len(),
        forall|i: int|
            0 <= i < s.len() ==> #[trigger] on_one_line(s)[i] == (if s[i] == '\n' || s[i] == '\r' {
                ' '
            } else {
                s[i]
            }),
{
}

/// In lower case, each ASCII capital is its small letter and all else stands
/// where it stood.
pub proof fn law_lower_case_keeps_the_places(s: Seq<char>, i: int)
    requires
        0 <= i < s.len(),
    ensures
        ascii_lowered(s).len() == s.len(),
        forall|k: int|
            0 <= k < 26 && s[i] == "ABCDEFGHIJKLMNOPQRSTUVWXYZ"@[k] ==> ascii_lowered(s)[i]
                == #[trigger] "abcdefghijklmnopqrstuvwxyz"@[k],
        !"ABCDEFGHIJKLMNOPQRSTUVWXYZ"@.contains(s[i]) ==> ascii_lowered(s)[i] == s[i],
{
    reveal_strlit("ABCDEFGHIJKLMNOPQRSTUVWXYZ");
    reveal_strlit("abcdefghijklmnopqrstuvwxyz");
    let c = s[i];
    if 'A' <= c <= 'Z' {
        let k = c as int - 65;
        assert("ABCDEFGHIJKLMNOPQRSTUVWXYZ"@[k] == c);
    }
}

/// A text begins with another in any case exactly where it is one of the same
/// lower case with something behind it.
pub proof fn law_beginnings_in_any_case(s: Seq<char>, p: Seq<char>)
    ensures
        begins_ignoring_case(s, p) <==> exists|a: Seq<char>, b: Seq<char>|
            s == #[trigger] (a + b) && ascii_lowered(a) == ascii_lowered(p),
{
    if begins_ignoring_case(s, p) {
        let n = p.len() as int;
        assert(s =~= s.take(n) + s.skip(n));
    }
    if exists|a: Seq<char>, b: Seq<char>|
        s == #[trigger] (a + b) && ascii_lowered(a) == ascii_lowered(p) {
        let (a, b) = choose|a: Seq<char>, b: Seq<char>|
            s == #[trigger] (a + b) && ascii_lowered(a) == ascii_lowered(p);
        assert(ascii_lowered(a).len() == a.len() && ascii_lowered(p).len() == p.len());
        assert(s.take(p.len() as int) =~= a);
    }
}

/// Without a prefix, a text is what stands behind it, and one that lacks the
/// prefix is itself.
pub proof fn law_prefix_is_taken_off(p: Seq<char>, s: Seq<char>)
    ensures
        without_prefix(p + s, p) == s,
        (forall|rest: Seq<char>| s != #[trigger] (p + rest)) ==> without_prefix(s, p) == s,
{
    assert((p + s).subrange(0, p.len() as int) =~= p);
    assert((p + s).skip(p.len() as int) =~= s);
    if p.is_prefix_of(s) {
        assert(s =~= p + s.skip(p.len() as int)) by {
            assert forall|j: int| 0 <= j < p.len() implies s[j] == p[j] by {
                assert(s.subrange(0, p.len() as int)[j] == p[j]);
            }
        }
    }
}

/// The characters of strings are shown string by string.
pub proof fn law_views_show_the_strings(v: Seq<&str>, i: int)
    requires
        0 <= i < v.len(),
    ensures
        views(v).len() == v.len(),
        views(v)[i] == v[i]@,
{
}

} // verus!
