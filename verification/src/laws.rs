//! What holds of the readers for every input: statements that relate the
//! functions of the other modules to each other.

use vstd::prelude::*;
use crate::attributes::{
    attributes_of, defaults_spec, field_of, parse_spec, resolve, set_value_spec, AttributesView,
};
use crate::chart::{
    col_warnings, effective_cols, effective_rows, fit_cols, fit_row, max_len, pad_rows, repaired,
    row_warning, row_warnings, Stitch, Warning,
};
use crate::color::{color_of, is_nan_bits, lemma_fixed_patterns, NAN_BITS};
use crate::errors::ErrorKindView;
use crate::header::{
    chart_word, check_ident_spec, classify, is_comment, lemma_position_bounds, lookup, position,
    upsert, valid_ident, LineView, RawLineView,
};
use crate::number::{decimal_up_to, decimal_value, is_digit};
use crate::text::{
    first_index_from, is_ascii_alnum, is_ascii_alpha, is_white_space, lemma_trim_end_bounds,
    trim_end_at, trim_start_at, trimmed,
};

verus! {

/// The first `c` of a sequence is at `m` if `c` is at `m` and nowhere before.
proof fn lemma_first_index_is(s: Seq<char>, c: char, m: int, i: int)
    requires
        0 <= i <= m <= s.len(),
        forall|k: int| i <= k < m ==> s[k] != c,
        m < s.len() ==> s[m] == c,
    ensures
        first_index_from(s, c, i) == m,
    decreases m - i,
{
    if i < m {
        lemma_first_index_is(s, c, m, i + 1);
    }
}

/// A line that is trimmed to something that starts with a letter is no
/// comment.
proof fn lemma_letter_first_is_no_comment(line: Seq<char>)
    requires
        trimmed(line).len() > 0,
        is_ascii_alpha(trimmed(line)[0]),
    ensures
        !is_comment(line),
{
    if is_comment(line) {
        assert(!is_white_space(line[0]));
        assert(trim_start_at(line, 0) == 0);
        lemma_trim_end_bounds(line, 0, line.len() as int);
        assert(trimmed(line)[0] == line[0]);
    }
}

/// A line that holds, between blanks, an identifier, `=` and a value is
/// classified as the pair of that very identifier and value, with the
/// line's number.
pub proof fn lemma_pair_keeps_identifier(
    line: Seq<char>,
    ident: Seq<char>,
    value: Seq<char>,
    n: usize,
)
    requires
        valid_ident(ident),
        trimmed(line) == ident + seq!['='] + value,
    ensures
        classify(line, n) == Ok::<RawLineView, ErrorKindView>(RawLineView::Double(n, ident, value)),
{
    let t = trimmed(line);
    let m = ident.len() as int;
    assert(t[0] == ident[0]);
    lemma_letter_first_is_no_comment(line);
    assert(t[m] == '=');
    assert forall|k: int| 0 <= k < m implies t[k] != '=' by {
        assert(t[k] == ident[k]);
        if k > 0 {
            assert(is_ascii_alnum(ident[k]));
        }
    }
    lemma_first_index_is(t, '=', m, 0);
    if t == chart_word() {
        assert(chart_word()[m] != '=');
    }
    assert(t.take(m) =~= ident);
    assert(t.skip(m + 1) =~= value);
}

/// A line that holds, between blanks, an identifier and nothing else is
/// classified as a single token, that very identifier, with the line's
/// number; unless the identifier is the word that ends the header.
pub proof fn lemma_single_keeps_identifier(line: Seq<char>, ident: Seq<char>, n: usize)
    requires
        valid_ident(ident),
        trimmed(line) == ident,
        ident != chart_word(),
    ensures
        classify(line, n) == Ok::<RawLineView, ErrorKindView>(RawLineView::Single(n, ident)),
{
    let t = trimmed(line);
    let m = ident.len() as int;
    lemma_letter_first_is_no_comment(line);
    assert forall|k: int| 0 <= k < m implies t[k] != '=' by {
        if k > 0 {
            assert(is_ascii_alnum(ident[k]));
        }
    }
    lemma_first_index_is(t, '=', m, 0);
}

/// A text that neither starts nor ends with whitespace is trimmed to
/// itself, with or without a line feed behind it.
pub proof fn lemma_trimmed_tight(body: Seq<char>)
    requires
        body.len() > 0,
        !is_white_space(body[0]),
        !is_white_space(body.last()),
    ensures
        trimmed(body) == body,
        trimmed(body + seq!['\n']) == body,
{
    let line = body + seq!['\n'];
    let n = body.len() as int;
    assert(trim_start_at(body, 0) == 0);
    assert(trim_end_at(body, 0, n) == n);
    assert(body.subrange(0, n) =~= body);
    assert(line[0] == body[0]);
    assert(trim_start_at(line, 0) == 0);
    assert(line[n] == '\n');
    assert(line[n - 1] == body.last());
    assert(trim_end_at(line, 0, n + 1) == trim_end_at(line, 0, n));
    assert(trim_end_at(line, 0, n) == n);
    assert(line.subrange(0, n) =~= body);
}

/// The line `name=value`, with a line feed at its end, is classified as the
/// pair of that very name and value, whatever valid identifier the name is
/// and whatever the value holds, as long as the value does not end in
/// whitespace.
pub proof fn lemma_pair_line_keeps_identifier(ident: Seq<char>, value: Seq<char>, n: usize)
    requires
        valid_ident(ident),
        value.len() > 0 ==> !is_white_space(value.last()),
    ensures
        classify(ident + seq!['='] + value + seq!['\n'], n) == Ok::<RawLineView, ErrorKindView>(
            RawLineView::Double(n, ident, value),
        ),
{
    let body = ident + seq!['='] + value;
    assert(body[0] == ident[0]);
    if value.len() > 0 {
        assert(body.last() == value.last());
    } else {
        assert(body.last() == '=');
    }
    lemma_trimmed_tight(body);
    lemma_pair_keeps_identifier(body + seq!['\n'], ident, value, n);
}

/// In a header an entry is found under its name as soon as it is put in,
/// in the place of what the name stood for before, and what the other names
/// stand for stays.
pub proof fn lemma_last_value_wins(entries: Seq<LineView>, line: LineView, other: Seq<char>)
    ensures
        lookup(upsert(entries, line), line.name) == Some(line),
        other != line.name ==> lookup(upsert(entries, line), other) == lookup(entries, other),
        upsert(entries, line).len() == (if lookup(entries, line.name) is Some {
            entries.len()
        } else {
            entries.len() + 1
        }),
{
    let out = upsert(entries, line);
    lemma_position_bounds(entries, line.name, 0);
    lemma_position_bounds(out, line.name, 0);
    let k = position(entries, line.name, 0);
    assert(out[k].name == line.name);
    assert forall|j: int| 0 <= j < k implies (#[trigger] out[j]).name != line.name by {
        assert(out[j] == entries[j]);
    }
    assert(position(out, line.name, 0) == k) by {
        let q = position(out, line.name, 0);
        if q < k {
            assert(out[q].name != line.name);
        }
        if q > k {
            assert(out[k].name != line.name);
        }
    }
    if other != line.name {
        lemma_position_bounds(entries, other, 0);
        lemma_position_bounds(out, other, 0);
        let a = position(entries, other, 0);
        let b = position(out, other, 0);
        if a < entries.len() {
            assert(a != k);
            assert(out[a] == entries[a]);
            if b > a {
                assert(out[a].name != other);
            }
        }
        if b < a {
            assert(entries[b].name != other);
            assert(out[b].name == other);
            if b < entries.len() && b != k {
                assert(out[b] == entries[b]);
            }
        }
    }
}

/// The length of the longest row is the length of one of the rows, and no
/// row is longer.
pub proof fn lemma_max_len_is_the_maximum(grid: Seq<Seq<Stitch>>, i: int)
    requires
        0 <= i <= grid.len(),
    ensures
        forall|j: int| 0 <= j < i ==> (#[trigger] grid[j]).len() <= max_len(grid, i),
        i > 0 ==> exists|j: int| 0 <= j < i && (#[trigger] grid[j]).len() == max_len(grid, i),
        i == 0 ==> max_len(grid, i) == 0,
    decreases i,
{
    if i > 0 {
        lemma_max_len_is_the_maximum(grid, i - 1);
        if grid[i - 1].len() > max_len(grid, i - 1) || i == 1 {
            assert(grid[i - 1].len() == max_len(grid, i));
        } else {
            let j = choose|j: int| 0 <= j < i - 1 && (#[trigger] grid[j]).len() == max_len(grid, i - 1);
            assert(grid[j].len() == max_len(grid, i));
        }
    }
}

/// The colour that a text writes holds, for an alpha that is not a number,
/// the one pattern that stands for it: no other bits of such an alpha reach
/// a chart.
pub proof fn lemma_color_alpha_is_settled(text: Seq<char>)
    ensures
        color_of(text) matches Some(c) ==> (is_nan_bits(c.alpha_bits) ==> c.alpha_bits
            == NAN_BITS),
{
    lemma_fixed_patterns();
}

/// A text with a character that is no decimal digit writes no number, unless
/// that character is a `+` at its front.
pub proof fn lemma_non_digit_is_refused(s: Seq<char>, i: int, max: nat)
    requires
        0 <= i < s.len(),
        !is_digit(s[i]),
        i > 0 || s[0] != '+',
    ensures
        decimal_value(s) is None,
        decimal_up_to(s, max) is None,
{
    if s[0] == '+' {
        assert(s.drop_first()[i - 1] == s[i]);
    }
}

/// A text without a character writes no number, and neither does a lone
/// `+`.
pub proof fn lemma_no_digit_is_refused()
    ensures
        decimal_value(Seq::empty()) is None,
        decimal_value(seq!['+']) is None,
{
}

/// An identifier is accepted as it is, and only an identifier is accepted.
pub proof fn lemma_check_ident_accepts_identifiers(ident: Seq<char>, n: usize)
    ensures
        valid_ident(ident) <==> check_ident_spec(ident, n) == Ok::<Seq<char>, ErrorKindView>(ident),
        check_ident_spec(ident, n) is Ok <==> valid_ident(ident),
{
}

/// Setting an attribute that the table does not have fails, and the failure
/// carries the name as it was given.
pub proof fn lemma_unknown_name_fails(a: AttributesView, name: Seq<char>, raw: Seq<char>)
    requires
        field_of(name) is None,
    ensures
        set_value_spec(a, name, raw) == Err::<AttributesView, ErrorKindView>(
            ErrorKindView::UnknownAttrName(name),
        ),
{
}

/// Resolving from the `i`-th entry on fails if an entry at or after `i`
/// has a name that the table does not have; the failure is that of the
/// first entry that cannot be set.
proof fn lemma_resolve_unknown(entries: Seq<LineView>, k: int, i: int, a: AttributesView)
    requires
        0 <= i <= k < entries.len(),
        field_of(entries[k].name) is None,
    ensures
        resolve(entries, i, a) is Err,
        (forall|j: int|
            i <= j < k ==> field_of(#[trigger] entries[j].name) is Some && parse_spec(
                field_of(entries[j].name).unwrap(),
                entries[j].value,
            ) is Ok) ==> resolve(entries, i, a) == Err::<AttributesView, ErrorKindView>(
            ErrorKindView::UnknownAttrName(entries[k].name),
        ),
    decreases k - i,
{
    if i < k {
        match set_value_spec(a, entries[i].name, entries[i].value) {
            Ok(b) => {
                lemma_resolve_unknown(entries, k, i + 1, b);
            },
            Err(_) => {},
        }
    }
}

/// A header with a name that the table does not have is not resolved. Where
/// every entry before that name can be set, the failure carries that name
/// as the header gave it.
pub proof fn lemma_unknown_key_fails(entries: Seq<LineView>, k: int)
    requires
        0 <= k < entries.len(),
        field_of(entries[k].name) is None,
    ensures
        attributes_of(entries) is Err,
        (forall|j: int|
            0 <= j < k ==> field_of(#[trigger] entries[j].name) is Some && parse_spec(
                field_of(entries[j].name).unwrap(),
                entries[j].value,
            ) is Ok) ==> attributes_of(entries) == Err::<AttributesView, ErrorKindView>(
            ErrorKindView::UnknownAttrName(entries[k].name),
        ),
{
    lemma_resolve_unknown(entries, k, 0, defaults_spec());
}

/// A header without entries resolves to the defaults.
pub proof fn lemma_empty_header_gives_defaults()
    ensures
        attributes_of(Seq::empty()) == Ok::<AttributesView, ErrorKindView>(defaults_spec()),
{
}

/// The shape of a grid that already has the rows and columns asked for
/// stays as it is, and nothing is reported.
pub proof fn lemma_rectangular_grid_is_kept(
    asked_rows: usize,
    asked_cols: usize,
    grid: Seq<Seq<Stitch>>,
)
    requires
        grid.len() == asked_rows,
        forall|i: int| 0 <= i < grid.len() ==> (#[trigger] grid[i]).len() == asked_cols,
    ensures
        repaired(asked_rows, asked_cols, grid).stitches == grid,
        repaired(asked_rows, asked_cols, grid).rows == asked_rows,
        repaired(asked_rows, asked_cols, grid).cols == asked_cols,
        repaired(asked_rows, asked_cols, grid).warnings == Seq::<Warning>::empty(),
{
    let rows = effective_rows(asked_rows, grid);
    lemma_max_len_of_even_rows(grid, asked_cols as nat, grid.len() as int);
    let cols = effective_cols(asked_cols, grid);
    assert(rows == asked_rows);
    assert(cols == asked_cols);
    assert(pad_rows(grid, rows) == grid);
    assert forall|i: int| 0 <= i < grid.len() implies fit_row(#[trigger] grid[i], cols)
        == grid[i] by {
        assert(fit_row(grid[i], cols) =~= grid[i]);
    }
    assert(fit_cols(grid, cols) =~= grid);
    lemma_no_col_warnings(grid, cols, grid.len() as int);
    assert(row_warnings(grid, rows) + col_warnings(grid, cols, grid.len() as int)
        =~= Seq::<Warning>::empty());
}

proof fn lemma_max_len_of_even_rows(grid: Seq<Seq<Stitch>>, cols: nat, i: int)
    requires
        0 <= i <= grid.len(),
        forall|j: int| 0 <= j < grid.len() ==> (#[trigger] grid[j]).len() == cols,
    ensures
        max_len(grid, i) == (if i == 0 { 0 } else { cols }),
    decreases i,
{
    if i > 0 {
        lemma_max_len_of_even_rows(grid, cols, i - 1);
    }
}

proof fn lemma_no_col_warnings(grid: Seq<Seq<Stitch>>, cols: nat, i: int)
    requires
        0 <= i <= grid.len(),
        forall|j: int| 0 <= j < grid.len() ==> (#[trigger] grid[j]).len() == cols,
    ensures
        col_warnings(grid, cols, i) == Seq::<Warning>::empty(),
    decreases i,
{
    if i > 0 {
        lemma_no_col_warnings(grid, cols, i - 1);
        assert(row_warning(grid[i - 1], cols) =~= Seq::<Warning>::empty());
        assert(col_warnings(grid, cols, i - 1) + row_warning(grid[i - 1], cols)
            =~= Seq::<Warning>::empty());
    }
}

} // verus!
