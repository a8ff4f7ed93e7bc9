//! The chart: the grid of stitches that follows the header, brought to the
//! number of rows and columns that the attributes ask for.

use vstd::prelude::*;
use crate::attributes::{attributes_of, Attributes, AttributesView};
use crate::color::Rgba;
use crate::errors::{ErrorKind, ErrorKindView};
use crate::header::{read_header, Header};
use crate::lexer::{after_first_line, first_line, lemma_line_end_bounds, Input};
use crate::text::{chars_of, slice_of, string_of};

verus! {

#[derive(Clone, Copy, Debug, PartialEq, Eq, Structural)]
pub enum Stitch {
    Knit,
    Purl,
    Empty,
}

impl Stitch {
    /// The sign by which a stitch is shown.
    pub fn symbol(&self) -> (c: char)
        ensures
            c == (match *self {
                Stitch::Knit => '.',
                Stitch::Purl => '*',
                Stitch::Empty => '#',
            }),
    {
        match self {
            Stitch::Knit => '.',
            Stitch::Purl => '*',
            Stitch::Empty => '#',
        }
    }
}

/// What was repaired in a grid whose shape was not the one asked for.
#[derive(Clone, Copy, Debug, PartialEq, Eq, Structural)]
pub enum Warning {
    /// The grid has more rows than asked for; they all stay.
    TooManyRows,
    /// The grid has fewer rows than asked for; empty rows were added.
    TooFewRows,
    /// A row was longer than asked for and was cut.
    TooManyStitches,
    /// A row was shorter than asked for and was filled up with knits.
    MissingStitches,
}

impl Warning {
    pub fn message(&self) -> (s: &'static str)
        ensures
            s@ == (match *self {
                Warning::TooManyRows => "You have more rows then you specified"@,
                Warning::TooFewRows => "You have too few rows. I'm adding some for you."@,
                Warning::TooManyStitches => "You have too many stitches in one row. Truncating"@,
                Warning::MissingStitches => "You are missing stitches in one row. Adding knits."@,
            }),
    {
        match self {
            Warning::TooManyRows => "You have more rows then you specified",
            Warning::TooFewRows => "You have too few rows. I'm adding some for you.",
            Warning::TooManyStitches => "You have too many stitches in one row. Truncating",
            Warning::MissingStitches => "You are missing stitches in one row. Adding knits.",
        }
    }
}

/// The stitch that the character `c` stands for. Where two markers are the
/// same character, knit goes before purl and purl before empty.
pub open spec fn stitch_of(a: AttributesView, c: char) -> Option<Stitch> {
    if c == a.knit {
        Some(Stitch::Knit)
    } else if c == a.purl {
        Some(Stitch::Purl)
    } else if c == a.empty {
        Some(Stitch::Empty)
    } else {
        None
    }
}

/// The stitches of one line of the grid; `None` if a character of the line
/// is no marker.
pub open spec fn row_of(a: AttributesView, line: Seq<char>) -> Option<Seq<Stitch>> {
    if forall|i: int| 0 <= i < line.len() ==> stitch_of(a, #[trigger] line[i]) is Some {
        Some(line.map_values(|c: char| stitch_of(a, c).unwrap()))
    } else {
        None
    }
}

/// The stitches of the lines of the grid, row by row as they were written;
/// `None` if a character of a line is no marker.
pub open spec fn grid_of(a: AttributesView, lines: Seq<Seq<char>>) -> Option<Seq<Seq<Stitch>>> {
    if forall|i: int| 0 <= i < lines.len() ==> row_of(a, #[trigger] lines[i]) is Some {
        Some(lines.map_values(|l: Seq<char>| row_of(a, l).unwrap()))
    } else {
        None
    }
}

/// The length of the longest of the first `i` rows; 0 if there is none.
pub open spec fn max_len(grid: Seq<Seq<Stitch>>, i: int) -> nat
    decreases i,
{
    if i <= 0 || i > grid.len() {
        0
    } else if grid[i - 1].len() > max_len(grid, i - 1) {
        grid[i - 1].len()
    } else {
        max_len(grid, i - 1)
    }
}

/// The number of rows of the chart: the one asked for, or that of the grid
/// where 0 is asked for.
pub open spec fn effective_rows(asked: usize, grid: Seq<Seq<Stitch>>) -> nat {
    if asked == 0 {
        grid.len()
    } else {
        asked as nat
    }
}

/// The number of columns of the chart: the one asked for, or the length of
/// the longest row where 0 is asked for.
pub open spec fn effective_cols(asked: usize, grid: Seq<Seq<Stitch>>) -> nat {
    if asked == 0 {
        max_len(grid, grid.len() as int)
    } else {
        asked as nat
    }
}

/// `n` rows without a stitch.
pub open spec fn empty_rows(n: nat) -> Seq<Seq<Stitch>> {
    Seq::new(n, |i: int| Seq::<Stitch>::empty())
}

/// The grid with empty rows added at the end until it has `rows` rows. A
/// grid with more rows keeps them all.
pub open spec fn pad_rows(grid: Seq<Seq<Stitch>>, rows: nat) -> Seq<Seq<Stitch>> {
    if grid.len() < rows {
        grid + empty_rows((rows - grid.len()) as nat)
    } else {
        grid
    }
}

/// The row cut to `cols` stitches, or filled up to `cols` with knits.
pub open spec fn fit_row(row: Seq<Stitch>, cols: nat) -> Seq<Stitch> {
    if row.len() > cols {
        row.take(cols as int)
    } else {
        row + Seq::new((cols - row.len()) as nat, |i: int| Stitch::Knit)
    }
}

pub open spec fn fit_cols(grid: Seq<Seq<Stitch>>, cols: nat) -> Seq<Seq<Stitch>> {
    grid.map_values(|row: Seq<Stitch>| fit_row(row, cols))
}

/// What is reported of the number of rows of a grid that should have `rows`.
pub open spec fn row_warnings(grid: Seq<Seq<Stitch>>, rows: nat) -> Seq<Warning> {
    if rows < grid.len() {
        seq![Warning::TooManyRows]
    } else if rows > grid.len() {
        seq![Warning::TooFewRows]
    } else {
        Seq::empty()
    }
}

/// What is reported of one row that should have `cols` stitches.
pub open spec fn row_warning(row: Seq<Stitch>, cols: nat) -> Seq<Warning> {
    if cols < row.len() {
        seq![Warning::TooManyStitches]
    } else if cols > row.len() {
        seq![Warning::MissingStitches]
    } else {
        Seq::empty()
    }
}

/// What is reported of the first `i` rows of a grid, from the first row on.
pub open spec fn col_warnings(grid: Seq<Seq<Stitch>>, cols: nat, i: int) -> Seq<Warning>
    decreases i,
{
    if i <= 0 || i > grid.len() {
        Seq::empty()
    } else {
        col_warnings(grid, cols, i - 1) + row_warning(grid[i - 1], cols)
    }
}

pub ghost struct Repaired {
    pub stitches: Seq<Seq<Stitch>>,
    pub rows: nat,
    pub cols: nat,
    pub warnings: Seq<Warning>,
}

/// The grid brought to the shape that the attributes ask for, with the
/// resolved numbers of rows and columns and with what is reported: first of
/// the rows, then of each row from the first to the last, added rows
/// included.
pub open spec fn repaired(asked_rows: usize, asked_cols: usize, grid: Seq<Seq<Stitch>>) -> Repaired {
    let rows = effective_rows(asked_rows, grid);
    let cols = effective_cols(asked_cols, grid);
    let padded = pad_rows(grid, rows);
    Repaired {
        stitches: fit_cols(padded, cols),
        rows,
        cols,
        warnings: row_warnings(grid, rows) + col_warnings(padded, cols, padded.len() as int),
    }
}

pub open spec fn grid_view(stitches: Seq<Vec<Stitch>>) -> Seq<Seq<Stitch>> {
    stitches.map_values(|row: Vec<Stitch>| row@)
}

pub open spec fn line_texts(lines: Seq<String>) -> Seq<Seq<char>> {
    lines.map_values(|l: String| l@)
}

/// The word that ends the grid.
pub open spec fn end_word() -> Seq<char> {
    seq!['O', 'S', 'A', 'A', 'T']
}

/// The line without the line feed at its end, if it has one.
pub open spec fn without_line_feed(line: Seq<char>) -> Seq<char> {
    if line.len() > 0 && line.last() == '\n' {
        line.drop_last()
    } else {
        line
    }
}

/// The lines of the grid in `text`, added to `acc`: every line up to the end
/// of the text or to the first line that starts with the word `OSAAT`.
pub open spec fn body_lines(text: Seq<char>, acc: Seq<Seq<char>>) -> Seq<Seq<char>>
    decreases text.len(),
{
    let line = first_line(text);
    let rest = after_first_line(text);
    if text.len() == 0 || rest.len() >= text.len() || end_word().is_prefix_of(line) {
        acc
    } else {
        body_lines(rest, acc.push(without_line_feed(line)))
    }
}

pub ghost struct ChartView {
    pub attributes: AttributesView,
    pub stitches: Seq<Seq<Stitch>>,
    pub rows: nat,
    pub cols: nat,
    pub warnings: Seq<Warning>,
}

/// The chart that a grid of stitches gives under the attributes `a`.
pub open spec fn chart_from(a: AttributesView, grid: Seq<Seq<Stitch>>) -> ChartView {
    let fixed = repaired(a.rows, a.columns, grid);
    ChartView {
        attributes: a,
        stitches: fixed.stitches,
        rows: fixed.rows,
        cols: fixed.cols,
        warnings: fixed.warnings,
    }
}

/// The chart that a text describes, or why it describes none.
pub open spec fn chart_of(text: Seq<char>) -> Result<ChartView, ErrorKindView> {
    let header = read_header(text, 1, Seq::empty());
    match header.0 {
        Err(e) => Err(e),
        Ok(entries) => match attributes_of(entries) {
            Err(e) => Err(e),
            Ok(a) => match grid_of(a, body_lines(header.1, Seq::empty())) {
                None => Err(ErrorKindView::BadStitchChar),
                Some(grid) => Ok(chart_from(a, grid)),
            },
        },
    }
}

/// Whether the grid has at least `rows` rows and each row `cols` stitches.
pub open spec fn rectangular(stitches: Seq<Seq<Stitch>>, rows: nat, cols: nat) -> bool {
    &&& stitches.len() >= rows
    &&& forall|i: int| 0 <= i < stitches.len() ==> (#[trigger] stitches[i]).len() == cols
}

/// A chart: its attributes and its grid of stitches, in which every row has
/// as many stitches as the chart has columns.
#[derive(Debug)]
pub struct Chart {
    attributes: Attributes,
    stitches: Vec<Vec<Stitch>>,
    rows: usize,
    cols: usize,
    warnings: Vec<Warning>,
}

impl View for Chart {
    type V = ChartView;

    closed spec fn view(&self) -> ChartView {
        ChartView {
            attributes: self.attributes@,
            stitches: grid_view(self.stitches@),
            rows: self.rows as nat,
            cols: self.cols as nat,
            warnings: self.warnings@,
        }
    }
}

impl Chart {
    #[verifier::type_invariant]
    spec fn inv(&self) -> bool {
        rectangular(grid_view(self.stitches@), self.rows as nat, self.cols as nat)
    }

    /// Reads a chart: the header, then the grid up to the end of the text or
    /// to a line that starts with the word `OSAAT`.
    pub fn read(rdr: Input) -> (r: Result<Chart, ErrorKind>)
        ensures
            match chart_of(rdr@) {
                Ok(c) => r matches Ok(x) && x@ == c,
                Err(e) => r matches Err(x) && x@ == e,
            },
    {
        let mut rdr = rdr;
        let hdr = match Header::new(&mut rdr) {
            Ok(h) => h,
            Err(e) => {
                return Err(e);
            },
        };
        let attributes = match Attributes::new(hdr) {
            Ok(a) => a,
            Err(e) => {
                return Err(e);
            },
        };
        let ghost body = rdr@;
        let mut lines: Vec<String> = Vec::new();
        assert(line_texts(lines@) =~= Seq::<Seq<char>>::empty());
        loop
            invariant_except_break
                body_lines(body, Seq::empty()) == body_lines(rdr@, line_texts(lines@)),
            ensures
                body_lines(body, Seq::empty()) == line_texts(lines@),
            decreases rdr@.len(),
        {
            proof {
                lemma_line_end_bounds(rdr@, 0);
            }
            let ghost before = line_texts(lines@);
            let line = rdr.read_line();
            let chars = chars_of(line.as_str());
            let n = chars.len();
            if n == 0 {
                break;
            }
            if n >= 5 && chars[0] == 'O' && chars[1] == 'S' && chars[2] == 'A' && chars[3] == 'A'
                && chars[4] == 'T' {
                assert(chars@.take(5) =~= end_word());
                break;
            }
            assert(!end_word().is_prefix_of(chars@)) by {
                if end_word().is_prefix_of(chars@) {
                    assert(chars@[0] == end_word()[0]);
                    assert(chars@[1] == end_word()[1]);
                    assert(chars@[2] == end_word()[2]);
                    assert(chars@[3] == end_word()[3]);
                    assert(chars@[4] == end_word()[4]);
                }
            }
            let end = if chars[n - 1] == '\n' {
                n - 1
            } else {
                n
            };
            let stripped = string_of(&slice_of(&chars, 0, end));
            assert(stripped@ =~= without_line_feed(chars@));
            lines.push(stripped);
            assert(line_texts(lines@) =~= before.push(stripped@));
        }
        match Chart::read_stitches(&attributes, &lines) {
            Err(e) => Err(e),
            Ok((stitches, rows, cols, warnings)) => Ok(
                Chart { attributes, stitches, rows, cols, warnings },
            ),
        }
    }

    /// The number of rows that the chart has by its attributes. The grid has
    /// at least as many.
    pub fn rows(&self) -> (n: usize)
        ensures
            n == self@.rows,
            n <= self@.stitches.len(),
    {
        proof {
            use_type_invariant(self);
        }
        self.rows
    }

    /// The number of columns: every row of the grid has as many stitches.
    pub fn columns(&self) -> (n: usize)
        ensures
            n == self@.cols,
            forall|i: int| 0 <= i < self@.stitches.len() ==> (#[trigger] self@.stitches[i]).len() == n,
    {
        proof {
            use_type_invariant(self);
        }
        self.cols
    }

    /// The number of rows of the grid, those beyond the number asked for
    /// included.
    pub fn grid_rows(&self) -> (n: usize)
        ensures
            n == self@.stitches.len(),
    {
        self.stitches.len()
    }

    pub fn attributes(&self) -> (a: &Attributes)
        ensures
            a@ == self@.attributes,
    {
        &self.attributes
    }

    pub fn background_color(&self) -> (c: Rgba)
        ensures
            c == self@.attributes.background_color,
    {
        self.attributes.background_color
    }

    pub fn grid_color(&self) -> (c: Rgba)
        ensures
            c == self@.attributes.grid_color,
    {
        self.attributes.grid_color
    }

    /// What was repaired when the chart was read, in the order of the
    /// repairs.
    pub fn warnings(&self) -> (w: &Vec<Warning>)
        ensures
            w@ == self@.warnings,
    {
        &self.warnings
    }

    /// The stitch in row `row` and column `col`, both counted from 0.
    pub fn stitch(&self, row: usize, col: usize) -> (s: Stitch)
        requires
            row < self@.stitches.len(),
            col < self@.cols,
        ensures
            s == self@.stitches[row as int][col as int],
    {
        proof {
            use_type_invariant(self);
            assert(grid_view(self.stitches@)[row as int].len() == self.cols);
        }
        self.stitches[row][col]
    }

    /// Reads the lines of a grid and brings the grid to the shape that the
    /// attributes ask for. Gives the grid, its numbers of rows and columns,
    /// and what was repaired.
    pub fn read_stitches(attributes: &Attributes, lines: &Vec<String>) -> (r: Result<
        (Vec<Vec<Stitch>>, usize, usize, Vec<Warning>),
        ErrorKind,
    >)
        ensures
            match grid_of(attributes@, line_texts(lines@)) {
                None => r matches Err(e) && e@ == ErrorKindView::BadStitchChar,
                Some(grid) => r matches Ok(x) && ({
                    let c = chart_from(attributes@, grid);
                    &&& grid_view(x.0@) == c.stitches
                    &&& x.1 == c.rows
                    &&& x.2 == c.cols
                    &&& x.3@ == c.warnings
                    &&& rectangular(c.stitches, c.rows, c.cols)
                }),
            },
    {
        let mut stitches_vec: Vec<Vec<Stitch>> = Vec::new();
        let n = lines.len();
        let mut i: usize = 0;
        while i < n
            invariant
                n == lines@.len(),
                i <= n,
                stitches_vec@.len() == i,
                forall|j: int|
                    0 <= j < i ==> row_of(attributes@, #[trigger] line_texts(lines@)[j])
                        == Some(stitches_vec@[j]@),
            decreases n - i,
        {
            assert(line_texts(lines@)[i as int] == lines@[i as int]@);
            match Chart::read_line(attributes, lines[i].as_str()) {
                Ok(row) => {
                    stitches_vec.push(row);
                },
                Err(e) => {
                    return Err(e);
                },
            }
            i = i + 1;
        }
        let ghost grid = grid_view(stitches_vec@);
        assert(grid_of(attributes@, line_texts(lines@)) == Some(grid)) by {
            assert(grid =~= line_texts(lines@).map_values(
                |l: Seq<char>| row_of(attributes@, l).unwrap(),
            ));
        }
        let (rows, cols, warnings) = fix_problems(attributes, &mut stitches_vec);
        Ok((stitches_vec, rows, cols, warnings))
    }

    /// Reads one line of the grid, character by character.
    pub fn read_line(attributes: &Attributes, line: &str) -> (r: Result<Vec<Stitch>, ErrorKind>)
        ensures
            match row_of(attributes@, line@) {
                Some(row) => r matches Ok(v) && v@ == row,
                None => r matches Err(e) && e@ == ErrorKindView::BadStitchChar,
            },
    {
        let chars = chars_of(line);
        let mut stitch_vec: Vec<Stitch> = Vec::new();
        let n = chars.len();
        let mut i: usize = 0;
        while i < n
            invariant
                n == chars@.len(),
                chars@ == line@,
                i <= n,
                stitch_vec@.len() == i,
                forall|j: int|
                    0 <= j < i ==> stitch_of(attributes@, #[trigger] chars@[j]) == Some(
                        stitch_vec@[j],
                    ),
            decreases n - i,
        {
            let ch = chars[i];
            let stitch = if ch == attributes.knit {
                Stitch::Knit
            } else if ch == attributes.purl {
                Stitch::Purl
            } else if ch == attributes.empty {
                Stitch::Empty
            } else {
                assert(stitch_of(attributes@, chars@[i as int]) is None);
                return Err(ErrorKind::BadStitchChar);
            };
            stitch_vec.push(stitch);
            i = i + 1;
        }
        assert(stitch_vec@ =~= line@.map_values(|c: char| stitch_of(attributes@, c).unwrap()));
        Ok(stitch_vec)
    }
}

/// The number of rows that the chart is to have.
pub fn figure_out_rows(attributes: &Attributes, stitches: &Vec<Vec<Stitch>>) -> (rows: usize)
    ensures
        rows == effective_rows(attributes@.rows, grid_view(stitches@)),
{
    if attributes.rows == 0 {
        stitches.len()
    } else {
        attributes.rows
    }
}

/// The number of columns that the chart is to have.
pub fn figure_out_cols(attributes: &Attributes, stitches: &Vec<Vec<Stitch>>) -> (cols: usize)
    ensures
        cols == effective_cols(attributes@.columns, grid_view(stitches@)),
{
    if attributes.columns == 0 {
        let n = stitches.len();
        let mut best: usize = 0;
        let mut i: usize = 0;
        while i < n
            invariant
                n == stitches@.len(),
                i <= n,
                best == max_len(grid_view(stitches@), i as int),
            decreases n - i,
        {
            assert(grid_view(stitches@)[i as int] == stitches@[i as int]@);
            if stitches[i].len() > best {
                best = stitches[i].len();
            }
            i = i + 1;
        }
        best
    } else {
        attributes.columns
    }
}

/// Adds empty rows to a grid that has fewer than `rows` rows, and reports a
/// grid that has more or fewer.
pub fn fixup_rows(rows: usize, stitches: &mut Vec<Vec<Stitch>>) -> (w: Vec<Warning>)
    ensures
        grid_view(final(stitches)@) == pad_rows(grid_view(old(stitches)@), rows as nat),
        w@ == row_warnings(grid_view(old(stitches)@), rows as nat),
{
    let mut w: Vec<Warning> = Vec::new();
    let ghost before = grid_view(stitches@);
    if rows < stitches.len() {
        w.push(Warning::TooManyRows);
    } else if rows > stitches.len() {
        w.push(Warning::TooFewRows);
        let first = stitches.len();
        let mut k: usize = first;
        while k < rows
            invariant
                first == before.len(),
                first <= k <= rows,
                stitches@.len() == k,
                grid_view(stitches@) == before + empty_rows((k - first) as nat),
            decreases rows - k,
        {
            let ghost prev = grid_view(stitches@);
            stitches.push(Vec::new());
            assert(grid_view(stitches@) =~~= prev.push(Seq::empty()));
            k = k + 1;
            assert(prev.push(Seq::empty()) =~~= before + empty_rows((k - first) as nat));
        }
    }
    assert(grid_view(stitches@) =~~= pad_rows(before, rows as nat));
    assert(w@ =~= row_warnings(before, rows as nat));
    w
}

/// Cuts or fills each row of a grid to `cols` stitches, and reports each
/// row that was cut or filled.
pub fn fixup_cols(cols: usize, stitches: &mut Vec<Vec<Stitch>>) -> (w: Vec<Warning>)
    ensures
        grid_view(final(stitches)@) == fit_cols(grid_view(old(stitches)@), cols as nat),
        w@ == col_warnings(grid_view(old(stitches)@), cols as nat, old(stitches)@.len() as int),
{
    let mut w: Vec<Warning> = Vec::new();
    let ghost before = grid_view(stitches@);
    let n = stitches.len();
    let mut i: usize = 0;
    while i < n
        invariant
            n == before.len(),
            stitches@.len() == n,
            i <= n,
            forall|j: int| 0 <= j < i ==> (#[trigger] stitches@[j])@ == fit_row(before[j], cols as nat),
            forall|j: int| i <= j < n ==> (#[trigger] stitches@[j])@ == before[j],
            w@ == col_warnings(before, cols as nat, i as int),
        decreases n - i,
    {
        let len = stitches[i].len();
        let ghost row = stitches@[i as int]@;
        if cols < len {
            w.push(Warning::TooManyStitches);
            stitches[i].truncate(cols);
            assert(stitches@[i as int]@ =~= fit_row(row, cols as nat));
        } else if cols > len {
            w.push(Warning::MissingStitches);
            let mut k: usize = len;
            while k < cols
                invariant
                    len <= k <= cols,
                    len == row.len(),
                    i < n,
                    stitches@.len() == n,
                    n == before.len(),
                    forall|j: int|
                        0 <= j < i ==> (#[trigger] stitches@[j])@ == fit_row(before[j], cols as nat),
                    forall|j: int| i < j < n ==> (#[trigger] stitches@[j])@ == before[j],
                    stitches@[i as int]@ == row + Seq::new((k - len) as nat, |x: int| Stitch::Knit),
                decreases cols - k,
            {
                stitches[i].push(Stitch::Knit);
                k = k + 1;
                assert(stitches@[i as int]@ =~= row + Seq::new(
                    (k - len) as nat,
                    |x: int| Stitch::Knit,
                ));
            }
        } else {
            assert(row =~= fit_row(row, cols as nat));
        }
        assert(w@ =~= col_warnings(before, cols as nat, i + 1));
        i = i + 1;
    }
    assert(grid_view(stitches@) =~= fit_cols(before, cols as nat));
    w
}

/// Brings a grid to the shape that the attributes ask for. Gives the
/// numbers of rows and columns of the chart and what was repaired.
pub fn fix_problems(attributes: &Attributes, stitches: &mut Vec<Vec<Stitch>>) -> (r: (
    usize,
    usize,
    Vec<Warning>,
))
    ensures
        ({
            let fixed = repaired(attributes@.rows, attributes@.columns, grid_view(old(stitches)@));
            &&& grid_view(final(stitches)@) == fixed.stitches
            &&& r.0 == fixed.rows
            &&& r.1 == fixed.cols
            &&& r.2@ == fixed.warnings
            &&& rectangular(fixed.stitches, fixed.rows, fixed.cols)
        }),
{
    let cols = figure_out_cols(attributes, stitches);
    let rows = figure_out_rows(attributes, stitches);
    let mut warnings = fixup_rows(rows, stitches);
    let mut more = fixup_cols(cols, stitches);
    warnings.append(&mut more);
    (rows, cols, warnings)
}

} // verus!
