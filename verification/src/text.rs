//! Texts as sequences of characters, and how a game text falls into lines and tokens.
//!
//! A line ends at a line feed; the last line needs none. Within a line, tokens are the
//! longest runs of characters that are not white space.

use vstd::prelude::*;

verus! {

/// `c` is white space: a space, a tab, a line feed, a form feed or a carriage return.
pub open spec fn is_space(c: char) -> bool {
    c == ' ' || c == '\t' || c == '\n' || c == '\x0C' || c == '\r'
}

/// The length of the longest run of characters that starts at `from` and is made of white
/// space only (`blank`) or holds none at all (`!blank`).
pub open spec fn run_len(t: Seq<char>, from: int, blank: bool) -> nat
    decreases t.len() - from,
{
    if 0 <= from < t.len() && is_space(t[from]) == blank {
        1 + run_len(t, from + 1, blank)
    } else {
        0
    }
}

/// Where the first token at or behind `at` starts: behind the white space at `at`. It is
/// the length of the text when no token follows.
pub open spec fn token_start(t: Seq<char>, at: int) -> int {
    at + run_len(t, at, true)
}

/// Where the token that starts at `start` ends: before the next white space.
pub open spec fn token_end(t: Seq<char>, start: int) -> int {
    start + 1 + run_len(t, start + 1, false)
}

/// The tokens of `t` that start at or behind position `at`, in order.
pub open spec fn tokens_from(t: Seq<char>, at: int) -> Seq<Seq<char>>
    decreases t.len() - at,
    via tokens_from_terminates
{
    let start = token_start(t, at);
    if at < 0 || start >= t.len() {
        Seq::empty()
    } else {
        let end = token_end(t, start);
        seq![t.subrange(start, end)] + tokens_from(t, end)
    }
}

#[via_fn]
proof fn tokens_from_terminates(t: Seq<char>, at: int) {
    let start = token_start(t, at);
    if at >= 0 && start < t.len() {
        lemma_run_within(t, start + 1, false);
    }
}

/// The tokens of a text: its longest runs of characters other than white space.
pub open spec fn tokens(t: Seq<char>) -> Seq<Seq<char>> {
    tokens_from(t, 0)
}

/// The number of characters from position `from` to the end of its line, the line feed
/// not counted.
pub open spec fn line_len(t: Seq<char>, from: int) -> nat
    decreases t.len() - from,
{
    if 0 <= from < t.len() && t[from] != '\n' {
        1 + line_len(t, from + 1)
    } else {
        0
    }
}

/// A run that starts inside the text ends inside it or at its end.
pub proof fn lemma_run_within(t: Seq<char>, from: int, blank: bool)
    requires
        0 <= from <= t.len(),
    ensures
        from + run_len(t, from, blank) <= t.len(),
    decreases t.len() - from,
{
    if from < t.len() && is_space(t[from]) == blank {
        lemma_run_within(t, from + 1, blank);
    }
}

/// A line that starts inside the text ends inside it or at its end.
pub proof fn lemma_line_within(t: Seq<char>, from: int)
    requires
        0 <= from <= t.len(),
    ensures
        from + line_len(t, from) <= t.len(),
    decreases t.len() - from,
{
    if from < t.len() && t[from] != '\n' {
        lemma_line_within(t, from + 1);
    }
}

/// A stretch of characters that are all white space, or all not, and that ends at the end
/// of the text or before a character of the other sort, is a run.
pub proof fn lemma_run_over(t: Seq<char>, from: int, n: int, blank: bool)
    requires
        0 <= from,
        0 <= n,
        from + n <= t.len(),
        forall|k: int| from <= k < from + n ==> is_space(#[trigger] t[k]) == blank,
        from + n == t.len() || is_space(t[from + n]) != blank,
    ensures
        run_len(t, from, blank) == n,
    decreases n,
{
    if n > 0 {
        assert(is_space(t[from]) == blank);
        lemma_run_over(t, from + 1, n - 1, blank);
    }
}

/// A stretch of characters without a line feed that ends at the end of the text or before
/// a line feed is a line.
pub proof fn lemma_line_over(t: Seq<char>, from: int, n: int)
    requires
        0 <= from,
        0 <= n,
        from + n <= t.len(),
        forall|k: int| from <= k < from + n ==> #[trigger] t[k] != '\n',
        from + n == t.len() || t[from + n] == '\n',
    ensures
        line_len(t, from) == n,
    decreases n,
{
    if n > 0 {
        assert(t[from] != '\n');
        lemma_line_over(t, from + 1, n - 1);
    }
}

/// Where a line ends does not depend on what stands before it.
pub proof fn lemma_line_len_shift(before: Seq<char>, t: Seq<char>, at: int)
    requires
        0 <= at <= t.len(),
    ensures
        line_len(before + t, before.len() + at) == line_len(t, at),
    decreases t.len() - at,
{
    if at < t.len() {
        assert((before + t)[before.len() + at] == t[at]);
        if t[at] != '\n' {
            lemma_line_len_shift(before, t, at + 1);
        }
    }
}

/// `t` is not empty and holds no white space.
pub open spec fn is_word(t: Seq<char>) -> bool {
    t.len() > 0 && forall|k: int| 0 <= k < t.len() ==> !is_space(#[trigger] t[k])
}

/// A word followed by a space holds one token: the word.
pub proof fn lemma_tokens_of_one_word(x: Seq<char>)
    requires
        is_word(x),
    ensures
        tokens(x + seq![' ']) == seq![x],
{
    let t = x + seq![' '];
    assert(t[0] == x[0]);
    assert forall|k: int| 1 <= k < x.len() implies is_space(#[trigger] t[k]) == false by {
        assert(t[k] == x[k]);
    }
    lemma_run_over(t, 1, x.len() - 1, false);
    lemma_run_over(t, x.len() as int, 1, true);
    assert(t.subrange(0, x.len() as int) =~= x);
    assert(tokens_from(t, x.len() as int) =~= Seq::<Seq<char>>::empty());
    assert(tokens(t) =~= seq![x]);
}

/// Two words, each followed by a space, hold two tokens: the words.
pub proof fn lemma_tokens_of_two_words(x: Seq<char>, y: Seq<char>)
    requires
        is_word(x),
        is_word(y),
    ensures
        tokens(x + seq![' '] + y + seq![' ']) == seq![x, y],
{
    let t = x + seq![' '] + y + seq![' '];
    let second: int = x.len() as int + 1;
    let end: int = second + y.len();
    assert(t[0] == x[0]);
    assert forall|k: int| 1 <= k < x.len() implies is_space(#[trigger] t[k]) == false by {
        assert(t[k] == x[k]);
    }
    lemma_run_over(t, 1, x.len() - 1, false);
    assert(t[second] == y[0]);
    lemma_run_over(t, x.len() as int, 1, true);
    assert forall|k: int| second + 1 <= k < end implies is_space(#[trigger] t[k]) == false by {
        assert(t[k] == y[k - second]);
    }
    lemma_run_over(t, second + 1, y.len() - 1, false);
    lemma_run_over(t, end, 1, true);
    assert(t.subrange(0, x.len() as int) =~= x);
    assert(t.subrange(second, end) =~= y);
    assert(tokens_from(t, end) =~= Seq::<Seq<char>>::empty());
    assert(tokens_from(t, x.len() as int) =~= seq![y]);
    assert(tokens(t) =~= seq![x, y]);
}

/// Whether the character is white space.
pub fn is_space_char(c: char) -> (b: bool)
    ensures
        b == is_space(c),
{
    c == ' ' || c == '\t' || c == '\n' || c == '\x0C' || c == '\r'
}

/// The characters of a text, one by one.
pub fn chars_of(s: &str) -> (v: Vec<char>)
    ensures
        v@ == s@,
{
    let mut v: Vec<char> = Vec::new();
    for c in it: s.chars()
        invariant
            v@ == it.seq().take(it.index() as int),
            it.seq() == s@,
    {
        v.push(c);
    }
    v
}

/// The position at which the run that starts at `from` ends.
pub fn run_end(t: &[char], from: usize, blank: bool) -> (end: usize)
    requires
        from <= t@.len(),
    ensures
        end == from + run_len(t@, from as int, blank),
        end <= t@.len(),
{
    let mut i: usize = from;
    while i < t.len() && is_space_char(t[i]) == blank
        invariant
            from <= i <= t@.len(),
            run_len(t@, from as int, blank) == (i - from) + run_len(t@, i as int, blank),
        decreases t@.len() - i,
    {
        i = i + 1;
    }
    i
}

/// The position at which the line that holds position `from` ends: that of its line feed,
/// or the end of the text.
pub fn line_end(t: &[char], from: usize) -> (end: usize)
    requires
        from <= t@.len(),
    ensures
        end == from + line_len(t@, from as int),
        end <= t@.len(),
        end < t@.len() ==> t@[end as int] == '\n',
{
    let mut i: usize = from;
    while i < t.len() && t[i] != '\n'
        invariant
            from <= i <= t@.len(),
            line_len(t@, from as int) == (i - from) + line_len(t@, i as int),
        decreases t@.len() - i,
    {
        i = i + 1;
    }
    i
}

/// Finds the first token at or behind position `at`: where it starts and where it ends,
/// or nothing when only white space is left.
pub fn next_token(t: &[char], at: usize) -> (r: Option<(usize, usize)>)
    requires
        at <= t@.len(),
    ensures
        match r {
            Some((start, end)) => {
                &&& start == token_start(t@, at as int)
                &&& end == token_end(t@, start as int)
                &&& start < end <= t@.len()
                &&& tokens_from(t@, at as int) == seq![t@.subrange(start as int, end as int)]
                    + tokens_from(t@, end as int)
            },
            None => tokens_from(t@, at as int) == Seq::<Seq<char>>::empty(),
        },
{
    let start = run_end(t, at, true);
    if start >= t.len() {
        None
    } else {
        let end = run_end(t, start + 1, false);
        Some((start, end))
    }
}

} // verus!
