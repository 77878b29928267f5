//! Stateless helpers on header lines: line-ending trimming and
//! whitespace tokenization.
use vstd::prelude::*;
use vstd::string::*;
use vstd::std_specs::iter::IteratorSpec;

use crate::error::{HeaderError, HeaderErrorView};

verus! {

/// ASCII whitespace, as `char::is_ascii_whitespace` defines it.
pub open spec fn is_ws(c: char) -> bool {
    c == ' ' || c == '\t' || c == '\n' || c == '\x0C' || c == '\r'
}

/// A line terminator character.
pub open spec fn is_eol(c: char) -> bool {
    c == '\n' || c == '\r'
}

/// `s` without its trailing run of `\n` / `\r` characters.
pub open spec fn trimmed(s: Seq<char>) -> Seq<char>
    decreases s.len(),
{
    if s.len() > 0 && is_eol(s.last()) {
        trimmed(s.drop_last())
    } else {
        s
    }
}

pub fn char_is_ws(c: char) -> (r: bool)
    ensures
        r == is_ws(c),
{
    c == ' ' || c == '\t' || c == '\n' || c == '\x0C' || c == '\r'
}

/// The characters of `s`, in order.
pub fn chars_of(s: &str) -> (r: Vec<char>)
    ensures
        r@ == s@,
{
    let mut out: Vec<char> = Vec::new();
    let mut it = s.chars();
    proof {
        broadcast use vstd::string::group_string_axioms;
    }
    loop
        invariant
            out@ + it.remaining() == s@,
        ensures
            out@ == s@,
        decreases s@.len() - out@.len(),
    {
        match it.next() {
            Some(c) => {
                out.push(c);
            },
            None => {
                assert(out@ + it.remaining() =~= out@);
                break;
            },
        }
    }
    out
}

/// Characters of `s` from index `i` up to the next whitespace (or the end).
pub open spec fn word_end(s: Seq<char>, i: int) -> int
    decreases s.len() - i,
{
    if i >= s.len() || is_ws(s[i]) {
        i
    } else {
        word_end(s, i + 1)
    }
}

/// The whitespace-separated words of `s` from index `i` on.
pub open spec fn words_from(s: Seq<char>, i: int) -> Seq<Seq<char>>
    decreases s.len() - i,
{
    if i >= s.len() {
        seq![]
    } else if is_ws(s[i]) {
        words_from(s, i + 1)
    } else {
        let e = word_end(s, i);
        if e <= i || e > s.len() {
            seq![]
        } else {
            seq![s.subrange(i, e)] + words_from(s, e)
        }
    }
}

/// The words of `s`: its maximal runs of non-whitespace characters, in order.
pub open spec fn words(s: Seq<char>) -> Seq<Seq<char>> {
    words_from(s, 0)
}

pub proof fn lemma_word_end_bounds(s: Seq<char>, i: int)
    requires
        0 <= i <= s.len(),
    ensures
        i <= word_end(s, i) <= s.len(),
        i < s.len() && !is_ws(s[i]) ==> i < word_end(s, i),
        forall|k: int| i <= k < word_end(s, i) ==> !is_ws(s[k]),
        word_end(s, i) == s.len() || is_ws(s[word_end(s, i)]),
    decreases s.len() - i,
{
    if i < s.len() && !is_ws(s[i]) {
        lemma_word_end_bounds(s, i + 1);
    }
}

/// A cursor over the whitespace-separated words of a string.
pub struct Words<'a> {
    text: &'a str,
    chars: Vec<char>,
    pos: usize,
}

impl<'a> View for Words<'a> {
    type V = Seq<Seq<char>>;

    /// The words not yet handed out.
    closed spec fn view(&self) -> Seq<Seq<char>> {
        words_from(self.chars@, self.pos as int)
    }
}

impl<'a> Words<'a> {
    #[verifier::type_invariant]
    closed spec fn inv(&self) -> bool {
        self.chars@ == self.text@ && self.pos <= self.chars@.len()
    }

    /// A cursor at the first word of `text`.
    pub fn new(text: &'a str) -> (r: Self)
        ensures
            r@ == words(text@),
    {
        Words { text, chars: chars_of(text), pos: 0 }
    }

    /// Hands out the next word, if any is left.
    pub fn next_word(&mut self) -> (r: Option<&'a str>)
        ensures
            old(self)@.len() == 0 ==> r is None && final(self)@ == old(self)@,
            old(self)@.len() > 0 ==> r is Some && r->0@ == old(self)@[0] && final(self)@
                == old(self)@.drop_first(),
    {
        proof {
            use_type_invariant(&*self);
        }
        let ghost rest = self@;
        let len = self.chars.len();
        while self.pos < len && char_is_ws(self.chars[self.pos])
            invariant
                self.chars@ == self.text@,
                self.pos <= len == self.chars@.len(),
                self@ == rest,
            decreases len - self.pos,
        {
            self.pos = self.pos + 1;
        }
        let start = self.pos;
        if start == len {
            return None;
        }
        proof {
            lemma_word_end_bounds(self.chars@, start as int);
        }
        while self.pos < len && !char_is_ws(self.chars[self.pos])
            invariant
                self.chars@ == self.text@,
                start <= self.pos <= len == self.chars@.len(),
                word_end(self.chars@, start as int) == word_end(self.chars@, self.pos as int),
                rest == words_from(self.chars@, start as int),
                start < len && !is_ws(self.chars@[start as int]),
            decreases len - self.pos,
        {
            self.pos = self.pos + 1;
        }
        proof {
            assert(word_end(self.chars@, self.pos as int) == self.pos);
            assert(rest == seq![self.chars@.subrange(start as int, self.pos as int)] + self@);
        }
        Some(self.text.substring_char(start, self.pos))
    }
}

/// Fails with `err` where no word is left, else hands out the next word.
pub fn next_word_or_err<'a, E>(iter: &mut Words<'a>, err: E) -> (r: Result<&'a str, E>)
    ensures
        old(iter)@.len() == 0 ==> r == Err::<&'a str, E>(err) && final(iter)@ == old(iter)@,
        old(iter)@.len() > 0 ==> r is Ok && r->Ok_0@ == old(iter)@[0] && final(iter)@
            == old(iter)@.drop_first(),
{
    match iter.next_word() {
        Some(w) => Ok(w),
        None => Err(err),
    }
}

/// Succeeds where no word is left; else fails naming `keyword` and the
/// first word left over, which it consumes.
pub fn ensure_empty_iter(iter: &mut Words, keyword: &str) -> (r: Result<(), HeaderError>)
    ensures
        old(iter)@.len() == 0 ==> r is Ok && final(iter)@ == old(iter)@,
        old(iter)@.len() > 0 ==> r is Err && r->Err_0@ == HeaderErrorView::ExtraCharacters(keyword@, old(iter)@[0])
            && final(iter)@ == old(iter)@.drop_first(),
{
    match iter.next_word() {
        None => Ok(()),
        Some(extra) => Err(HeaderError::ExtraCharacters(keyword.to_owned(), extra.to_owned())),
    }
}

/// Succeeds where `value` holds nothing but whitespace; else fails naming
/// `keyword` and the first word of `value`.
pub fn ensure_empty(value: &str, keyword: &str) -> (r: Result<(), HeaderError>)
    ensures
        words(value@).len() == 0 ==> r is Ok,
        words(value@).len() > 0 ==> r is Err && r->Err_0@ == HeaderErrorView::ExtraCharacters(keyword@, words(value@)[0]),
{
    let mut iter = Words::new(value);
    ensure_empty_iter(&mut iter, keyword)
}

/// Empty text and text of spaces and tabs hold no word, so `ensure_empty`
/// accepts them whatever the keyword; `x` and `x ` hold one, so it refuses them.
pub proof fn lemma_blank_texts_hold_no_words()
    ensures
        words(seq![]).len() == 0,
        words(seq![' ', ' ', ' ', '\t', ' ', ' ']).len() == 0,
        words(seq!['x']).len() > 0,
        words(seq!['x', ' ']).len() > 0,
{
    reveal_with_fuel(words_from, 8);
    reveal_with_fuel(word_end, 3);
}

/// `line` without its trailing run of `\n` / `\r` characters, in any order;
/// other whitespace stays.
pub fn trim_line_endings(line: &str) -> (r: &str)
    ensures
        r@ == trimmed(line@),
        exists|k: int|
            0 <= k <= line@.len() && r@ == line@.take(k) && (forall|i: int|
                k <= i < line@.len() ==> is_eol(#[trigger] line@[i])) && (k == 0 || !is_eol(
                line@[k - 1])),
{
    let cs = chars_of(line);
    let mut end: usize = cs.len();
    assert(cs@.take(end as int) =~= line@);
    while end > 0 && (cs[end - 1] == '\n' || cs[end - 1] == '\r')
        invariant
            end <= cs@.len(),
            cs@ == line@,
            trimmed(cs@.take(end as int)) == trimmed(line@),
            forall|i: int| end <= i < line@.len() ==> is_eol(#[trigger] line@[i]),
        decreases end,
    {
        assert(cs@.take(end as int).drop_last() =~= cs@.take(end - 1));
        end = end - 1;
    }
    proof {
        assert(trimmed(cs@.take(end as int)) == cs@.take(end as int));
    }
    line.substring_char(0, end)
}

/// Trimming line endings a second time changes nothing.
pub proof fn lemma_trim_idempotent(s: Seq<char>)
    ensures
        trimmed(trimmed(s)) == trimmed(s),
    decreases s.len(),
{
    if s.len() > 0 && is_eol(s.last()) {
        lemma_trim_idempotent(s.drop_last());
    }
}

/// Trimming removes exactly the trailing run of line-ending characters: what
/// stays is a prefix that does not end in one, and all that goes is made of them.
pub proof fn lemma_trim_removes_trailing_run(s: Seq<char>)
    ensures
        trimmed(s).len() <= s.len(),
        trimmed(s) == s.take(trimmed(s).len() as int),
        trimmed(s).len() == 0 || !is_eol(trimmed(s).last()),
        forall|i: int| trimmed(s).len() <= i < s.len() ==> is_eol(#[trigger] s[i]),
    decreases s.len(),
{
    if s.len() > 0 && is_eol(s.last()) {
        lemma_trim_removes_trailing_run(s.drop_last());
        assert(s.drop_last().take(trimmed(s).len() as int) =~= s.take(trimmed(s).len() as int));
        assert forall|i: int| trimmed(s).len() <= i < s.len() implies is_eol(#[trigger] s[i]) by {
            if i < s.len() - 1 {
                assert(s[i] == s.drop_last()[i]);
            }
        }
    } else {
        assert(s.take(s.len() as int) =~= s);
    }
}

/// A decimal digit.
pub open spec fn is_digit(c: char) -> bool {
    48 <= (c as u32) <= 57
}

/// The value of the decimal numeral `s`, most significant digit first.
pub open spec fn decimal_value(s: Seq<char>) -> nat
    decreases s.len(),
{
    if s.len() == 0 {
        0
    } else {
        decimal_value(s.drop_last()) * 10 + ((s.last() as u32) - 48) as nat
    }
}

/// The digits of an unsigned numeral: `s` without one leading `+`.
pub open spec fn unsigned_digits(s: Seq<char>) -> Seq<char> {
    if s.len() > 0 && s[0] == '+' {
        s.skip(1)
    } else {
        s
    }
}

/// The `u64` that `s` writes in decimal, with an optional leading `+`, where
/// it is one: at least one digit, nothing else, and no more than `u64::MAX`.
pub open spec fn parsed_u64(s: Seq<char>) -> Option<u64> {
    let d = unsigned_digits(s);
    if d.len() > 0 && (forall|i: int| 0 <= i < d.len() ==> is_digit(#[trigger] d[i]))
        && decimal_value(d) <= u64::MAX {
        Some(decimal_value(d) as u64)
    } else {
        None
    }
}

proof fn lemma_decimal_prefix_le(s: Seq<char>, j: int)
    requires
        0 <= j <= s.len(),
    ensures
        decimal_value(s.take(j)) <= decimal_value(s),
    decreases s.len(),
{
    if j < s.len() {
        lemma_decimal_prefix_le(s.drop_last(), j);
        assert(s.drop_last().take(j) =~= s.take(j));
    } else {
        assert(s.take(j) =~= s);
    }
}

/// Reads an unsigned decimal numeral, as `str::parse::<u64>` does.
pub fn parse_u64(s: &str) -> (r: Option<u64>)
    ensures
        r == parsed_u64(s@),
{
    let cs = chars_of(s);
    let start: usize = if cs.len() > 0 && cs[0] == '+' {
        1
    } else {
        0
    };
    let ghost d = unsigned_digits(s@);
    assert(d =~= cs@.subrange(start as int, cs@.len() as int));
    if start == cs.len() {
        return None;
    }
    let mut acc: u64 = 0;
    let mut i: usize = start;
    while i < cs.len()
        invariant
            start <= i <= cs@.len(),
            cs@ == s@,
            d == cs@.subrange(start as int, cs@.len() as int),
            d == unsigned_digits(s@),
            acc == decimal_value(d.take(i - start)),
            forall|k: int| 0 <= k < i - start ==> is_digit(#[trigger] d[k]),
        decreases cs.len() - i,
    {
        let c = cs[i];
        let v = c as u32;
        assert(c == d[i - start]);
        assert(v == (c as u32));
        if v < 48 || v > 57 {
            assert(!is_digit(d[i - start]));
            assert(!(forall|k: int| 0 <= k < d.len() ==> is_digit(#[trigger] d[k])));
            return None;
        }
        let ghost next = d.take(i - start + 1);
        assert(next.drop_last() =~= d.take(i - start));
        assert(decimal_value(next) == acc * 10 + (v - 48));
        proof {
            lemma_decimal_prefix_le(d, i - start + 1);
        }
        match acc.checked_mul(10) {
            None => {
                assert(decimal_value(d) > u64::MAX);
                return None;
            },
            Some(m) => match m.checked_add((v - 48) as u64) {
                None => {
                    return None;
                },
                Some(n) => {
                    acc = n;
                },
            },
        }
        i = i + 1;
    }
    assert(d.take(i - start) =~= d);
    Some(acc)
}

} // verus!
