//! Characters, tokens and lines: the lexical layer under the command grammar
//! and the log file format.

use vstd::prelude::*;

verus! {

/// `String::push` appends one character to the end of the string.
pub assume_specification[ String::push ](s: &mut String, ch: char)
    ensures
        final(s)@ == old(s)@.push(ch),
;

/// Whether `c` separates tokens. These are the characters that Unicode
/// classes as `White_Space`.
pub open spec fn is_space(c: char) -> bool {
    let n = c as u32;
    ||| 0x09 <= n <= 0x0D
    ||| n == 0x20
    ||| n == 0x85
    ||| n == 0xA0
    ||| n == 0x1680
    ||| 0x2000 <= n <= 0x200A
    ||| n == 0x2028
    ||| n == 0x2029
    ||| n == 0x202F
    ||| n == 0x205F
    ||| n == 0x3000
}

/// Tells whether `c` separates tokens.
pub fn is_whitespace(c: char) -> (b: bool)
    ensures
        b == is_space(c),
{
    let n: u32 = c as u32;
    (0x09 <= n && n <= 0x0D) || n == 0x20 || n == 0x85 || n == 0xA0 || n == 0x1680 || (0x2000 <= n
        && n <= 0x200A) || n == 0x2028 || n == 0x2029 || n == 0x202F || n == 0x205F || n == 0x3000
}

/// The characters of a string, in order.
pub fn to_chars(s: &str) -> (v: Vec<char>)
    ensures
        v@ == s@,
{
    let mut v: Vec<char> = Vec::new();
    for c in it: s.chars()
        invariant
            v@ == it.seq().take(it.index() as int),
            it.seq() == s@,
    {
        v.push(c);
    }
    v
}

/// The string made of the characters `chars[start..end]`.
pub fn from_chars(chars: &Vec<char>, start: usize, end: usize) -> (s: String)
    requires
        start <= end <= chars.len(),
    ensures
        s@ == chars@.subrange(start as int, end as int),
{
    let mut s = String::new();
    let mut i: usize = start;
    while i < end
        invariant
            start <= i <= end <= chars.len(),
            s@ == chars@.subrange(start as int, i as int),
        decreases end - i,
    {
        s.push(chars[i]);
        i += 1;
    }
    s
}

/// The three kinds of run that the lexical layer measures.
#[derive(Debug, Clone, Copy, PartialEq, Eq)]
pub enum Run {
    /// Token separators.
    Spaces,
    /// The characters of one token.
    Word,
    /// The characters of one line, up to its line feed.
    Line,
}

/// Whether `c` may stand inside a run of the given kind.
pub open spec fn in_run(kind: Run, c: char) -> bool {
    match kind {
        Run::Spaces => is_space(c),
        Run::Word => !is_space(c),
        Run::Line => c != '\n',
    }
}

/// The length of the longest prefix of `s` that is a run of the given kind.
pub open spec fn run_len(s: Seq<char>, kind: Run) -> nat
    decreases s.len(),
{
    if s.len() > 0 && in_run(kind, s[0]) {
        1 + run_len(s.drop_first(), kind)
    } else {
        0
    }
}

/// A run lies inside the sequence, holds only characters of its kind, and is
/// followed by a character of another kind or by the end.
pub proof fn lemma_run_len(s: Seq<char>, kind: Run)
    ensures
        run_len(s, kind) <= s.len(),
        forall|i: int| 0 <= i < run_len(s, kind) ==> in_run(kind, #[trigger] s[i]),
        run_len(s, kind) < s.len() ==> !in_run(kind, s[run_len(s, kind) as int]),
    decreases s.len(),
{
    if s.len() > 0 && in_run(kind, s[0]) {
        let t = s.drop_first();
        lemma_run_len(t, kind);
        assert forall|i: int| 0 <= i < run_len(s, kind) implies in_run(kind, #[trigger] s[i]) by {
            if i > 0 {
                assert(s[i] == t[i - 1]);
            }
        }
    }
}

/// What `lemma_run_len` states of a run determines its length.
pub proof fn lemma_run_len_is(s: Seq<char>, kind: Run, n: nat)
    requires
        n <= s.len(),
        forall|i: int| 0 <= i < n ==> in_run(kind, #[trigger] s[i]),
        n < s.len() ==> !in_run(kind, s[n as int]),
    ensures
        run_len(s, kind) == n,
    decreases s.len(),
{
    if n > 0 {
        lemma_run_len_is(s.drop_first(), kind, (n - 1) as nat);
    }
}

/// The tokens of a line: its maximal runs of characters that are not
/// separators, from left to right.
pub open spec fn tokens(s: Seq<char>) -> Seq<Seq<char>>
    decreases s.len(),
{
    let rest = s.skip(run_len(s, Run::Spaces) as int);
    let n = run_len(rest, Run::Word);
    if n == 0 {
        Seq::empty()
    } else {
        proof {
            lemma_run_len(s, Run::Spaces);
            lemma_run_len(rest, Run::Word);
        }
        seq![rest.take(n as int)] + tokens(rest.skip(n as int))
    }
}

/// The lines of a text. A line ends at a line feed, which is not part of it;
/// what follows the last line feed is a line too, unless it is empty. A
/// carriage return before the line feed stays in the line, where it counts
/// as a separator.
pub open spec fn lines(s: Seq<char>) -> Seq<Seq<char>>
    decreases s.len(),
{
    let n = run_len(s, Run::Line);
    if s.len() == 0 {
        Seq::empty()
    } else if n >= s.len() {
        seq![s]
    } else {
        seq![s.take(n as int)] + lines(s.skip(n as int + 1))
    }
}

/// A token: one or more characters, none of them a separator. Keys and
/// values are tokens.
pub open spec fn is_token(s: Seq<char>) -> bool {
    &&& s.len() > 0
    &&& forall|i: int| 0 <= i < s.len() ==> !is_space(#[trigger] s[i])
}

/// A line without tokens: nothing but separators.
pub proof fn lemma_tokens_of_spaces(s: Seq<char>)
    requires
        forall|i: int| 0 <= i < s.len() ==> is_space(#[trigger] s[i]),
    ensures
        tokens(s) == Seq::<Seq<char>>::empty(),
{
    lemma_run_len_is(s, Run::Spaces, s.len());
}

/// A separator in front of a line adds no token.
pub proof fn lemma_tokens_after_space(c: char, rest: Seq<char>)
    requires
        is_space(c),
    ensures
        tokens(seq![c] + rest) == tokens(rest),
{
    let s = seq![c] + rest;
    assert(s.drop_first() == rest);
    let m = run_len(rest, Run::Spaces);
    lemma_run_len(rest, Run::Spaces);
    assert(s.skip(1 + m as int) == rest.skip(m as int));
}

/// A token in front of a line that is empty or begins with a separator is
/// the first token of the whole.
pub proof fn lemma_tokens_after_token(word: Seq<char>, rest: Seq<char>)
    requires
        is_token(word),
        rest.len() > 0 ==> is_space(rest[0]),
    ensures
        tokens(word + rest) == seq![word] + tokens(rest),
{
    let s = word + rest;
    assert(!is_space(s[0]));
    assert(s.skip(0) == s);
    lemma_run_len_is(s, Run::Word, word.len());
    assert(s.take(word.len() as int) == word);
    assert(s.skip(word.len() as int) == rest);
}

/// What `tokens` yields are tokens.
pub proof fn lemma_tokens_are_tokens(s: Seq<char>)
    ensures
        forall|k: int| 0 <= k < tokens(s).len() ==> is_token(#[trigger] tokens(s)[k]),
    decreases s.len(),
{
    let rest = s.skip(run_len(s, Run::Spaces) as int);
    let n = run_len(rest, Run::Word);
    if n > 0 {
        lemma_run_len(s, Run::Spaces);
        lemma_run_len(rest, Run::Word);
        let first = rest.take(n as int);
        let tail = tokens(rest.skip(n as int));
        lemma_tokens_are_tokens(rest.skip(n as int));
        assert(is_token(first));
        assert(tokens(s) == seq![first] + tail);
        assert forall|k: int| 0 <= k < tokens(s).len() implies is_token(
            #[trigger] tokens(s)[k],
        ) by {
            if k > 0 {
                assert(tokens(s)[k] == tail[k - 1]);
            }
        }
    }
}

/// Whether a text is empty or ends with a line feed, so that what is
/// appended to it begins a new line.
pub open spec fn ends_lines(s: Seq<char>) -> bool {
    s.len() == 0 || s.last() == '\n'
}

/// What is appended to a text that ends its lines adds its own lines and
/// leaves the lines of the text as they are.
pub proof fn lemma_lines_concat(text: Seq<char>, more: Seq<char>)
    requires
        ends_lines(text),
    ensures
        lines(text + more) == lines(text) + lines(more),
    decreases text.len(),
{
    let s = text + more;
    if text.len() == 0 {
        assert(s == more);
    } else {
        let n = run_len(text, Run::Line);
        lemma_run_len(text, Run::Line);
        assert(n < text.len());
        let tail = text.skip(n as int + 1);
        lemma_run_len_is(s, Run::Line, n);
        assert(s.take(n as int) == text.take(n as int));
        assert(s.skip(n as int + 1) == tail + more);
        assert(ends_lines(tail));
        lemma_lines_concat(tail, more);
    }
}

/// A line and its line feed are one line.
pub proof fn lemma_lines_of_line(line: Seq<char>)
    requires
        forall|i: int| 0 <= i < line.len() ==> #[trigger] line[i] != '\n',
    ensures
        lines(line + seq!['\n']) == seq![line],
{
    let s = line + seq!['\n'];
    lemma_run_len_is(s, Run::Line, line.len());
    assert(s.take(line.len() as int) == line);
    assert(s.skip(line.len() as int + 1) == Seq::<char>::empty());
    assert(lines(Seq::<char>::empty()) == Seq::<Seq<char>>::empty());
}

/// Tells whether `c` may stand inside a run of the given kind.
fn belongs(kind: Run, c: char) -> (b: bool)
    ensures
        b == in_run(kind, c),
{
    match kind {
        Run::Spaces => is_whitespace(c),
        Run::Word => !is_whitespace(c),
        Run::Line => c != '\n',
    }
}

/// The position at which the run of the given kind that starts at `from` ends.
fn scan(chars: &Vec<char>, from: usize, kind: Run) -> (to: usize)
    requires
        from <= chars.len(),
    ensures
        from <= to <= chars.len(),
        to - from == run_len(chars@.skip(from as int), kind),
{
    let mut to: usize = from;
    while to < chars.len() && belongs(kind, chars[to])
        invariant
            from <= to <= chars.len(),
            forall|i: int| from <= i < to ==> in_run(kind, #[trigger] chars@[i]),
        decreases chars.len() - to,
    {
        to += 1;
    }
    proof {
        lemma_run_len_is(chars@.skip(from as int), kind, (to - from) as nat);
    }
    to
}

/// Tells whether a string is a token.
pub fn is_token_str(s: &str) -> (b: bool)
    ensures
        b == is_token(s@),
{
    let chars = to_chars(s);
    if chars.len() == 0 {
        return false;
    }
    let end = scan(&chars, 0, Run::Word);
    proof {
        assert(chars@.skip(0) == chars@);
        lemma_run_len(chars@, Run::Word);
    }
    end == chars.len()
}

/// Splits a line into its tokens.
pub fn split_tokens(line: &str) -> (toks: Vec<String>)
    ensures
        toks.deep_view() == tokens(line@),
{
    let chars = to_chars(line);
    let mut toks: Vec<String> = Vec::new();
    let mut pos: usize = 0;
    proof {
        assert(chars@.skip(0) == chars@);
    }
    loop
        invariant
            pos <= chars.len(),
            tokens(chars@) == toks.deep_view() + tokens(chars@.skip(pos as int)),
        ensures
            tokens(chars@) == toks.deep_view(),
        decreases chars.len() - pos,
    {
        let start = scan(&chars, pos, Run::Spaces);
        let end = scan(&chars, start, Run::Word);
        proof {
            assert(chars@.skip(pos as int).skip(start - pos) == chars@.skip(start as int));
        }
        if end == start {
            break;
        }
        let tok = from_chars(&chars, start, end);
        proof {
            let rest = chars@.skip(start as int);
            assert(rest.take(end - start) == chars@.subrange(start as int, end as int));
            assert(rest.skip(end - start) == chars@.skip(end as int));
        }
        toks.push(tok);
        pos = end;
    }
    toks
}

/// Splits a text into its lines.
pub fn split_lines(text: &str) -> (out: Vec<String>)
    ensures
        out.deep_view() == lines(text@),
{
    let chars = to_chars(text);
    let mut out: Vec<String> = Vec::new();
    let mut pos: usize = 0;
    proof {
        assert(chars@.skip(0) == chars@);
    }
    while pos < chars.len()
        invariant
            pos <= chars.len(),
            lines(chars@) == out.deep_view() + lines(chars@.skip(pos as int)),
        decreases chars.len() - pos,
    {
        let end = scan(&chars, pos, Run::Line);
        let line = from_chars(&chars, pos, end);
        proof {
            let rest = chars@.skip(pos as int);
            assert(rest.take(end - pos) == chars@.subrange(pos as int, end as int));
            if end < chars.len() {
                assert(rest.skip(end - pos + 1) == chars@.skip(end + 1));
            }
        }
        out.push(line);
        pos = if end == chars.len() {
            end
        } else {
            end + 1
        };
    }
    out
}

} // verus!
