//! A cursor over the characters of a text, and the first lexical steps on
//! it: skipping blanks within a line and matching the end of a line.

use vstd::prelude::*;
use crate::text::{chars_of, is_ascii_space, is_ascii_whitespace, slice_of, string_of};

verus! {

/// Reserved for a tokenizer of the chart grammar; it has no state yet.
pub struct Lexer {}

#[derive(PartialEq, Eq, Clone, Copy, Debug)]
pub enum Token {
    /// An end of line.
    Eol,
}

/// A text that is consumed from the front, character by character or line
/// by line. Its view is what has not been consumed yet.
pub struct Input {
    chars: Vec<char>,
    pos: usize,
}

impl View for Input {
    type V = Seq<char>;

    closed spec fn view(&self) -> Seq<char> {
        self.chars@.subrange(self.pos as int, self.chars@.len() as int)
    }
}

/// The end of the line of `s` that starts at `i`: just behind the first line
/// feed at or after `i`, or the length of `s` if there is none.
pub open spec fn line_end(s: Seq<char>, i: int) -> int
    decreases s.len() - i,
{
    if 0 <= i < s.len() {
        if s[i] == '\n' {
            i + 1
        } else {
            line_end(s, i + 1)
        }
    } else {
        i
    }
}

/// The first line of `s`, its line feed included; empty only if `s` is.
pub open spec fn first_line(s: Seq<char>) -> Seq<char> {
    s.take(line_end(s, 0))
}

/// What follows the first line of `s`.
pub open spec fn after_first_line(s: Seq<char>) -> Seq<char> {
    s.skip(line_end(s, 0))
}

/// The index of the first character at or after `i` that is a line feed or
/// no ASCII whitespace, or the length of `s` if there is none.
pub open spec fn blank_end(s: Seq<char>, i: int) -> int
    decreases s.len() - i,
{
    if 0 <= i < s.len() && s[i] != '\n' && is_ascii_space(s[i]) {
        blank_end(s, i + 1)
    } else {
        i
    }
}

pub proof fn lemma_line_end_bounds(s: Seq<char>, i: int)
    requires
        0 <= i <= s.len(),
    ensures
        i <= line_end(s, i) <= s.len(),
        i < s.len() ==> i < line_end(s, i),
    decreases s.len() - i,
{
    if i < s.len() && s[i] != '\n' {
        lemma_line_end_bounds(s, i + 1);
    }
}

pub proof fn lemma_blank_end_bounds(s: Seq<char>, i: int)
    requires
        0 <= i <= s.len(),
    ensures
        i <= blank_end(s, i) <= s.len(),
    decreases s.len() - i,
{
    if i < s.len() && s[i] != '\n' && is_ascii_space(s[i]) {
        lemma_blank_end_bounds(s, i + 1);
    }
}

/// `line_end` and `blank_end` look only at what lies at or after the index.
proof fn lemma_ends_shift(s: Seq<char>, p: int, i: int)
    requires
        0 <= p <= i <= s.len(),
    ensures
        line_end(s, i) == p + line_end(s.skip(p), i - p),
        blank_end(s, i) == p + blank_end(s.skip(p), i - p),
    decreases s.len() - i,
{
    if i < s.len() {
        assert(s.skip(p)[i - p] == s[i]);
        lemma_ends_shift(s, p, i + 1);
    }
}

impl Input {
    #[verifier::type_invariant]
    spec fn inv(&self) -> bool {
        self.pos <= self.chars@.len() < usize::MAX
    }

    /// A cursor at the start of `text`.
    pub fn new(text: &str) -> (r: Input)
        requires
            text@.len() < usize::MAX,
        ensures
            r@ == text@,
    {
        let chars = chars_of(text);
        assert(chars@.subrange(0, chars@.len() as int) =~= chars@);
        Input { chars, pos: 0 }
    }

    /// The number of characters that are left; it never reaches the largest
    /// `usize`.
    pub fn len(&self) -> (n: usize)
        ensures
            n == self@.len(),
            n < usize::MAX,
    {
        proof {
            use_type_invariant(self);
        }
        self.chars.len() - self.pos
    }

    /// The next character, which stays in place.
    pub fn peek(&self) -> (r: Option<char>)
        ensures
            r == (if self@.len() > 0 { Some(self@[0]) } else { None }),
    {
        proof {
            use_type_invariant(self);
        }
        if self.pos < self.chars.len() {
            Some(self.chars[self.pos])
        } else {
            None
        }
    }

    /// Takes the next character.
    pub fn next(&mut self) -> (r: Option<char>)
        ensures
            r == (if old(self)@.len() > 0 { Some(old(self)@[0]) } else { None }),
            final(self)@ == (if old(self)@.len() > 0 { old(self)@.drop_first() } else { old(self)@ }),
    {
        proof {
            use_type_invariant(&*self);
        }
        if self.pos < self.chars.len() {
            let c = self.chars[self.pos];
            self.pos = self.pos + 1;
            assert(self@ =~= old(self)@.drop_first());
            Some(c)
        } else {
            None
        }
    }

    /// Takes the next line, its line feed included. The result is empty
    /// exactly at the end of the text.
    pub fn read_line(&mut self) -> (line: String)
        ensures
            line@ == first_line(old(self)@),
            final(self)@ == after_first_line(old(self)@),
    {
        proof {
            use_type_invariant(&*self);
        }
        let n = self.chars.len();
        let start = self.pos;
        let mut end: usize = start;
        let mut done = false;
        while !done && end < n
            invariant
                n == self.chars@.len(),
                start == self.pos,
                start <= end <= n,
                self.chars == old(self).chars,
                !done ==> line_end(self.chars@, start as int) == line_end(self.chars@, end as int),
                done ==> line_end(self.chars@, start as int) == end,
            decreases n - end + (if done { 0int } else { 1int }),
        {
            if self.chars[end] == '\n' {
                done = true;
            }
            end = end + 1;
        }
        let line = slice_of(&self.chars, start, end);
        self.pos = end;
        proof {
            let s = old(self)@;
            lemma_ends_shift(self.chars@, start as int, start as int);
            assert(line_end(s, 0) == end - start);
            assert(line@ =~= first_line(s));
            assert(self@ =~= after_first_line(s));
        }
        string_of(&line)
    }

    /// A copy of what is left.
    pub fn rest(&self) -> (r: String)
        ensures
            r@ == self@,
    {
        proof {
            use_type_invariant(self);
        }
        let v = slice_of(&self.chars, self.pos, self.chars.len());
        string_of(&v)
    }
}

/// Moves `e` past the blanks at its front: ASCII whitespace other than a
/// line feed.
pub fn skip_white(e: &mut Input)
    ensures
        final(e)@ == old(e)@.skip(blank_end(old(e)@, 0)),
{
    let ghost s = e@;
    let ghost mut k: int = 0;
    loop
        invariant
            0 <= k <= s.len(),
            e@ == s.skip(k),
            blank_end(s, 0) == blank_end(s, k),
        ensures
            blank_end(s, k) == k,
        decreases s.len() - k,
    {
        match e.peek() {
            Some(ch) => {
                assert(ch == s[k]);
                if ch == '\n' || !is_ascii_whitespace(ch) {
                    break;
                }
            },
            None => {
                break;
            },
        }
        let ghost before = e@;
        e.next();
        proof {
            assert(before[0] == s[k]);
            assert(e@ =~= s.skip(k + 1));
            k = k + 1;
        }
    }
}

/// Skips blanks, then takes a line feed if one follows.
pub fn match_eol(e: &mut Input) -> (r: Option<Token>)
    ensures
        ({
            let s = old(e)@;
            let k = blank_end(s, 0);
            if k < s.len() && s[k] == '\n' {
                r == Some(Token::Eol) && final(e)@ == s.skip(k + 1)
            } else {
                r is None && final(e)@ == s.skip(k)
            }
        }),
{
    let ghost s = e@;
    proof {
        lemma_blank_end_bounds(s, 0);
    }
    skip_white(e);
    if e.peek() == Some('\n') {
        e.next();
        assert(e@ =~= s.skip(blank_end(s, 0) + 1));
        Some(Token::Eol)
    } else {
        None
    }
}

} // verus!
