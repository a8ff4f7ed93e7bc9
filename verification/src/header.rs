//! The header of a chart: lines of the form `name=value`, blank lines and
//! `//` comments, up to a line that holds the word `CHART` or to the end of
//! the text.

use vstd::prelude::*;
use crate::errors::{ErrorKind, ErrorKindView};
use crate::lexer::{after_first_line, first_line, lemma_line_end_bounds, Input};
use crate::text::{
    chars_eq, chars_of, find_char, first_index_from, is_ascii_alnum, is_ascii_alpha,
    is_ascii_alphabetic, is_ascii_alphanumeric, lemma_first_index_bounds, slice_of, string_of,
    trim, trimmed,
};

verus! {

/// One attribute as the header gave it.
#[derive(Debug)]
pub struct Line {
    line_number: usize,
    name: String,
    pub value: String,
}

pub ghost struct LineView {
    pub line_number: usize,
    pub name: Seq<char>,
    pub value: Seq<char>,
}

impl View for Line {
    type V = LineView;

    closed spec fn view(&self) -> LineView {
        LineView { line_number: self.line_number, name: self.name@, value: self.value@ }
    }
}

impl Clone for Line {
    fn clone(&self) -> (r: Line)
        ensures
            r@ == self@,
    {
        Line {
            line_number: self.line_number,
            name: self.name.clone(),
            value: self.value.clone(),
        }
    }
}

impl Line {
    pub fn new(line_number: usize, name: String, value: String) -> (r: Line)
        ensures
            r@ == (LineView { line_number, name: name@, value: value@ }),
    {
        Line { line_number, name, value }
    }

    /// The number of the line that gave the attribute its value.
    pub fn line_number(&self) -> (n: usize)
        ensures
            n == self@.line_number,
    {
        self.line_number
    }

    pub fn name(&self) -> (s: &str)
        ensures
            s@ == self@.name,
    {
        self.name.as_str()
    }

    pub fn value(&self) -> (s: &str)
        ensures
            s@ == self@.value,
    {
        self.value.as_str()
    }
}

/// What one line of the header is.
#[derive(Debug, PartialEq)]
pub enum RawLine {
    BlankLine(usize),
    Comment(usize),
    /// A token without `=`.
    Single(usize, String),
    /// A name and a value.
    Double(usize, String, String),
    /// The line that ends the header.
    HeaderDone,
}

pub ghost enum RawLineView {
    BlankLine(usize),
    Comment(usize),
    Single(usize, Seq<char>),
    Double(usize, Seq<char>, Seq<char>),
    HeaderDone,
}

impl View for RawLine {
    type V = RawLineView;

    open spec fn view(&self) -> RawLineView {
        match self {
            RawLine::BlankLine(n) => RawLineView::BlankLine(*n),
            RawLine::Comment(n) => RawLineView::Comment(*n),
            RawLine::Single(n, name) => RawLineView::Single(*n, name@),
            RawLine::Double(n, name, value) => RawLineView::Double(*n, name@, value@),
            RawLine::HeaderDone => RawLineView::HeaderDone,
        }
    }
}

/// The word that ends the header.
pub open spec fn chart_word() -> Seq<char> {
    seq!['C', 'H', 'A', 'R', 'T']
}

/// A line is a comment if it starts with two slashes.
pub open spec fn is_comment(buf: Seq<char>) -> bool {
    buf.len() >= 2 && buf[0] == '/' && buf[1] == '/'
}

/// An identifier is an ASCII letter followed by ASCII letters and digits.
pub open spec fn valid_ident(s: Seq<char>) -> bool {
    &&& s.len() > 0
    &&& is_ascii_alpha(s[0])
    &&& forall|i: int| 1 <= i < s.len() ==> is_ascii_alnum(#[trigger] s[i])
}

/// The identifier itself if it is valid, else what is wrong with it, reported
/// for line `n`.
pub open spec fn check_ident_spec(ident: Seq<char>, n: usize) -> Result<Seq<char>, ErrorKindView> {
    if ident.len() == 0 {
        Err(ErrorKindView::MissingIdent(n))
    } else if !is_ascii_alpha(ident[0]) {
        Err(ErrorKindView::IdentInitialNotAlpha(n))
    } else if !valid_ident(ident) {
        Err(ErrorKindView::IdentInvalidChar(n))
    } else {
        Ok(ident)
    }
}

/// What the line `buf`, which is line `n` of the text, is.
pub open spec fn classify(buf: Seq<char>, n: usize) -> Result<RawLineView, ErrorKindView> {
    let t = trimmed(buf);
    let k = first_index_from(t, '=', 0);
    if is_comment(buf) {
        Ok(RawLineView::Comment(n))
    } else if t == chart_word() {
        Ok(RawLineView::HeaderDone)
    } else if k >= t.len() {
        if t.len() == 0 {
            Ok(RawLineView::BlankLine(n))
        } else {
            Ok(RawLineView::Single(n, t))
        }
    } else {
        match check_ident_spec(t.take(k), n) {
            Ok(name) => Ok(RawLineView::Double(n, name, t.skip(k + 1))),
            Err(e) => Err(e),
        }
    }
}

/// The index of the first entry at or after `i` that is named `name`, or the
/// number of entries if there is none.
pub open spec fn position(entries: Seq<LineView>, name: Seq<char>, i: int) -> int
    decreases entries.len() - i,
{
    if 0 <= i < entries.len() && entries[i].name != name {
        position(entries, name, i + 1)
    } else {
        i
    }
}

/// The entry named `name`, if there is one.
pub open spec fn lookup(entries: Seq<LineView>, name: Seq<char>) -> Option<LineView> {
    let k = position(entries, name, 0);
    if 0 <= k < entries.len() {
        Some(entries[k])
    } else {
        None
    }
}

/// `entries` with `line` in the place of the entry of its name, or at the
/// end if no entry has that name.
pub open spec fn upsert(entries: Seq<LineView>, line: LineView) -> Seq<LineView> {
    let k = position(entries, line.name, 0);
    if 0 <= k < entries.len() {
        entries.update(k, line)
    } else {
        entries.push(line)
    }
}

/// No two entries have the same name.
pub open spec fn distinct_names(entries: Seq<LineView>) -> bool {
    forall|i: int, j: int|
        0 <= i < j < entries.len() ==> (#[trigger] entries[i]).name != (#[trigger] entries[j]).name
}

/// Reads the header at the front of `text`, whose first line is line `n`,
/// into `acc`. Gives the entries, or the first failure, and what is left of
/// the text behind the last line that was read.
pub open spec fn read_header(text: Seq<char>, n: nat, acc: Seq<LineView>) -> (
    Result<Seq<LineView>, ErrorKindView>,
    Seq<char>,
)
    decreases text.len(),
{
    let rest = after_first_line(text);
    if text.len() == 0 {
        (Ok(acc), text)
    } else if rest.len() >= text.len() {
        (Ok(acc), text)
    } else {
        match classify(first_line(text), n as usize) {
            Err(e) => (Err(e), rest),
            Ok(RawLineView::HeaderDone) => (Ok(acc), rest),
            Ok(RawLineView::Single(k, _)) => (Err(ErrorKindView::BadHeaderLine(k)), rest),
            Ok(RawLineView::Double(k, name, value)) => read_header(
                rest,
                n + 1,
                upsert(acc, LineView { line_number: k, name, value }),
            ),
            Ok(_) => read_header(rest, n + 1, acc),
        }
    }
}

/// The attributes of a header, each name once.
#[derive(Debug)]
pub struct Header {
    attributes: Vec<Line>,
}

pub open spec fn line_views(lines: Seq<Line>) -> Seq<LineView> {
    lines.map_values(|l: Line| l@)
}

impl View for Header {
    type V = Seq<LineView>;

    closed spec fn view(&self) -> Seq<LineView> {
        line_views(self.attributes@)
    }
}

pub proof fn lemma_position_bounds(entries: Seq<LineView>, name: Seq<char>, i: int)
    requires
        0 <= i <= entries.len(),
    ensures
        i <= position(entries, name, i) <= entries.len(),
        position(entries, name, i) < entries.len() ==> entries[position(entries, name, i)].name
            == name,
        forall|k: int| i <= k < position(entries, name, i) ==> (#[trigger] entries[k]).name != name,
    decreases entries.len() - i,
{
    if i < entries.len() && entries[i].name != name {
        lemma_position_bounds(entries, name, i + 1);
    }
}

/// Putting an entry into a header keeps every name single.
pub proof fn lemma_upsert_distinct(entries: Seq<LineView>, line: LineView)
    requires
        distinct_names(entries),
    ensures
        distinct_names(upsert(entries, line)),
{
    lemma_position_bounds(entries, line.name, 0);
    let k = position(entries, line.name, 0);
    let out = upsert(entries, line);
    assert forall|i: int, j: int| 0 <= i < j < out.len() implies (#[trigger] out[i]).name != (
    #[trigger] out[j]).name by {
        if k < entries.len() {
            if i != k && j != k {
                assert(entries[i].name != entries[j].name);
            } else if i == k {
                assert(entries[k].name != entries[j].name);
            } else {
                assert(entries[i].name != entries[k].name);
            }
        } else {
            if j < entries.len() {
                assert(entries[i].name != entries[j].name);
            } else {
                assert(entries[i].name != line.name);
            }
        }
    }
}

impl Header {
    #[verifier::type_invariant]
    spec fn inv(&self) -> bool {
        distinct_names(line_views(self.attributes@))
    }

    /// Reads a header from `reader`, which is left just behind the line that
    /// ends the header, behind the line that failed, or at the end of the
    /// text.
    pub fn new(reader: &mut Input) -> (r: Result<Header, ErrorKind>)
        ensures
            match read_header(old(reader)@, 1, Seq::empty()).0 {
                Ok(entries) => r matches Ok(h) && h@ == entries,
                Err(e) => r matches Err(x) && x@ == e,
            },
            final(reader)@ == read_header(old(reader)@, 1, Seq::empty()).1,
    {
        let mut rdr = HeaderReader::new();
        let mut attributes: Vec<Line> = Vec::new();
        let total = reader.len();
        let ghost start = reader@;
        assert(line_views(attributes@) =~= Seq::empty());
        loop
            invariant
                start == old(reader)@,
                rdr.current_line_number + reader@.len() <= total + 1,
                rdr.current_line_number >= 1,
                total < usize::MAX,
                distinct_names(line_views(attributes@)),
                read_header(start, 1, Seq::empty()) == read_header(
                    reader@,
                    rdr.current_line_number as nat,
                    line_views(attributes@),
                ),
            decreases reader@.len(),
        {
            let ghost text = reader@;
            let ghost n = rdr.current_line_number;
            let ghost acc = line_views(attributes@);
            proof {
                lemma_line_end_bounds(text, 0);
            }
            match rdr.next_raw_line(reader) {
                Err(e) => {
                    return Err(e);
                },
                Ok(None) => {
                    return Ok(Header { attributes });
                },
                Ok(Some(raw)) => {
                    match raw {
                        RawLine::Double(line_number, name, value) => {
                            let line = Line { line_number, name, value };
                            proof {
                                lemma_upsert_distinct(acc, line@);
                            }
                            put(&mut attributes, line);
                        },
                        RawLine::BlankLine(_) | RawLine::Comment(_) => {},
                        RawLine::Single(line_number, _) => {
                            return Err(ErrorKind::BadHeaderLine(line_number));
                        },
                        RawLine::HeaderDone => {
                            return Ok(Header { attributes });
                        },
                    }
                },
            }
        }
    }

    /// The attributes, each with its name.
    pub fn iter(&self) -> (r: Vec<(String, Line)>)
        ensures
            r@.len() == self@.len(),
            forall|i: int|
                0 <= i < r@.len() ==> (#[trigger] r@[i]).0@ == self@[i].name && r@[i].1@ == self@[i],
            distinct_names(self@),
    {
        proof {
            use_type_invariant(self);
        }
        let mut r: Vec<(String, Line)> = Vec::new();
        let n = self.attributes.len();
        let mut i: usize = 0;
        while i < n
            invariant
                n == self.attributes@.len(),
                i <= n,
                r@.len() == i,
                forall|j: int|
                    0 <= j < i ==> (#[trigger] r@[j]).0@ == self@[j].name && r@[j].1@ == self@[j],
            decreases n - i,
        {
            let line = self.attributes[i].clone();
            let name = self.attributes[i].name.clone();
            r.push((name, line));
            i = i + 1;
        }
        r
    }

    /// The value of the attribute `name`, if the header has it.
    pub fn value(&self, name: &str) -> (r: Option<&str>)
        ensures
            match lookup(self@, name@) {
                Some(line) => r matches Some(v) && v@ == line.value,
                None => r is None,
            },
    {
        let wanted = chars_of(name);
        let k = find_line(&self.attributes, &wanted);
        if k < self.attributes.len() {
            Some(self.attributes[k].value.as_str())
        } else {
            None
        }
    }

    /// How many attributes the header has; no two of them share a name.
    pub fn num_attributes(&self) -> (n: usize)
        ensures
            n == self@.len(),
            distinct_names(self@),
    {
        proof {
            use_type_invariant(self);
        }
        self.attributes.len()
    }
}

/// The index of the line named `name`, or the number of lines.
fn find_line(lines: &Vec<Line>, name: &Vec<char>) -> (k: usize)
    ensures
        k == position(line_views(lines@), name@, 0),
        k <= lines@.len(),
{
    let n = lines.len();
    let mut k: usize = 0;
    while k < n
        invariant
            n == lines@.len(),
            k <= n,
            position(line_views(lines@), name@, 0) == position(line_views(lines@), name@, k as int),
        decreases n - k,
    {
        let have = chars_of(lines[k].name.as_str());
        if chars_eq(&have, name) {
            return k;
        }
        k = k + 1;
    }
    k
}

/// Stores `line` under its name, in the place of an earlier line of that name
/// if there is one.
fn put(lines: &mut Vec<Line>, line: Line)
    ensures
        line_views(final(lines)@) == upsert(line_views(old(lines)@), line@),
{
    let name = chars_of(line.name.as_str());
    let k = find_line(lines, &name);
    if k < lines.len() {
        lines[k] = line;
    } else {
        lines.push(line);
    }
    assert(line_views(lines@) =~= upsert(line_views(old(lines)@), line@));
}

/// Counts the lines of a header while it classifies them.
pub struct HeaderReader {
    /// The number of the line that is read next. 1-indexed.
    pub current_line_number: usize,
}

impl HeaderReader {
    pub fn new() -> (r: HeaderReader)
        ensures
            r.current_line_number == 1,
    {
        HeaderReader { current_line_number: 1 }
    }

    /// Takes the next line from `reader` and classifies it. Gives `None` at
    /// the end of the text.
    pub fn next_raw_line(&mut self, reader: &mut Input) -> (r: Result<Option<RawLine>, ErrorKind>)
        requires
            old(self).current_line_number + old(reader)@.len() <= usize::MAX,
        ensures
            final(reader)@ == after_first_line(old(reader)@),
            old(reader)@.len() == 0 ==> r is Ok && r->Ok_0 is None && *final(self) == *old(self),
            old(reader)@.len() > 0 ==> final(self).current_line_number == old(
                self,
            ).current_line_number + 1,
            old(reader)@.len() > 0 ==> (match classify(
                first_line(old(reader)@),
                old(self).current_line_number,
            ) {
                Ok(v) => r matches Ok(Some(x)) && x@ == v,
                Err(e) => r matches Err(x) && x@ == e,
            }),
    {
        proof {
            lemma_line_end_bounds(reader@, 0);
        }
        let buf = reader.read_line();
        if buf.as_str().unicode_len() == 0 {
            Ok(None)
        } else {
            match self.parse_attribute(buf.as_str()) {
                Ok(raw) => Ok(Some(raw)),
                Err(e) => Err(e),
            }
        }
    }

    /// Classifies the line `buf` and counts it.
    pub fn parse_attribute(&mut self, buf: &str) -> (r: Result<RawLine, ErrorKind>)
        requires
            old(self).current_line_number < usize::MAX,
        ensures
            final(self).current_line_number == old(self).current_line_number + 1,
            match classify(buf@, old(self).current_line_number) {
                Ok(v) => r matches Ok(x) && x@ == v,
                Err(e) => r matches Err(x) && x@ == e,
            },
    {
        let line = chars_of(buf);
        let number = self.current_line_number;
        // Comments must stand at the beginning of the line.
        if line.len() >= 2 && line[0] == '/' && line[1] == '/' {
            self.current_line_number = number + 1;
            return Ok(RawLine::Comment(number));
        }
        let t = trim(&line);
        proof {
            lemma_first_index_bounds(t@, '=', 0);
        }
        if t.len() == 5 && t[0] == 'C' && t[1] == 'H' && t[2] == 'A' && t[3] == 'R' && t[4] == 'T' {
            assert(t@ =~= chart_word());
            self.current_line_number = number + 1;
            return Ok(RawLine::HeaderDone);
        }
        let k = find_char(&t, '=');
        if k >= t.len() {
            self.current_line_number = number + 1;
            if t.len() == 0 {
                return Ok(RawLine::BlankLine(number));
            } else {
                return Ok(RawLine::Single(number, string_of(&t)));
            }
        }
        let name = string_of(&slice_of(&t, 0, k));
        let value = string_of(&slice_of(&t, k + 1, t.len()));
        let checked = self.check_ident(name.as_str());
        self.current_line_number = number + 1;
        match checked {
            Ok(ident) => Ok(RawLine::Double(number, ident, value)),
            Err(e) => Err(e),
        }
    }

    /// Tells whether `ident` is an identifier, and what is wrong with it if
    /// it is none.
    pub fn check_ident(&self, ident: &str) -> (r: Result<String, ErrorKind>)
        ensures
            match check_ident_spec(ident@, self.current_line_number) {
                Ok(v) => r matches Ok(x) && x@ == v,
                Err(e) => r matches Err(x) && x@ == e,
            },
    {
        let chars = chars_of(ident);
        if chars.len() == 0 {
            return Err(ErrorKind::MissingIdent(self.current_line_number));
        }
        if !is_ascii_alphabetic(chars[0]) {
            return Err(ErrorKind::IdentInitialNotAlpha(self.current_line_number));
        }
        let n = chars.len();
        let mut i: usize = 1;
        while i < n
            invariant
                n == chars@.len(),
                chars@ == ident@,
                is_ascii_alpha(chars@[0]),
                1 <= i <= n,
                forall|j: int| 1 <= j < i ==> is_ascii_alnum(#[trigger] chars@[j]),
            decreases n - i,
        {
            if !is_ascii_alphanumeric(chars[i]) {
                assert(!is_ascii_alnum(chars@[i as int]));
                return Err(ErrorKind::IdentInvalidChar(self.current_line_number));
            }
            i = i + 1;
        }
        Ok(string_of(&chars))
    }
}

} // verus!
