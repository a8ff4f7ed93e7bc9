//! The attributes of a chart: a fixed table of named attributes, each with a
//! default text and a way to read its value, and the typed settings that a
//! header resolves to.

use vstd::prelude::*;
use crate::color::{color_of, read_color, Rgba, OPAQUE_BITS};
use crate::number::digits_value;
use crate::errors::{ErrorKind, ErrorKindView};
use crate::header::{Header, LineView};
use crate::number::{decimal_up_to, parse_bool, parse_u32, parse_usize, truth_value};
use crate::text::{ascii_upper, chars_of, str_eq, to_ascii_uppercase};

verus! {

/// The settings that an attribute can write to.
#[derive(Clone, Copy, Debug, PartialEq, Eq, Structural)]
pub enum Field {
    Rows,
    Columns,
    CellSize,
    DotSize,
    Knit,
    Purl,
    Empty,
    BackgroundColor,
    GridColor,
    InTheRound,
}

/// The value of an attribute, read from its text.
#[derive(Debug)]
pub enum AttrValue {
    Count(usize),
    Size(u32),
    Marker(char),
    Color(Rgba),
    Flag(bool),
    Text(String),
}

pub ghost enum AttrValueView {
    Count(usize),
    Size(u32),
    Marker(char),
    Color(Rgba),
    Flag(bool),
    Text(Seq<char>),
}

impl View for AttrValue {
    type V = AttrValueView;

    open spec fn view(&self) -> AttrValueView {
        match self {
            AttrValue::Count(n) => AttrValueView::Count(*n),
            AttrValue::Size(n) => AttrValueView::Size(*n),
            AttrValue::Marker(c) => AttrValueView::Marker(*c),
            AttrValue::Color(c) => AttrValueView::Color(*c),
            AttrValue::Flag(b) => AttrValueView::Flag(*b),
            AttrValue::Text(s) => AttrValueView::Text(s@),
        }
    }
}

/// One entry of the table of attributes.
#[derive(Clone, Copy, Debug)]
pub struct AttributeSpec {
    pub name: &'static str,
    /// The text that the attribute has where the header does not set it.
    pub default: &'static str,
    /// The setting that the attribute writes to; it decides how the text is
    /// read.
    pub field: Field,
}

pub ghost struct AttributeSpecView {
    pub name: Seq<char>,
    pub default: Seq<char>,
    pub field: Field,
}

impl View for AttributeSpec {
    type V = AttributeSpecView;

    open spec fn view(&self) -> AttributeSpecView {
        AttributeSpecView { name: self.name@, default: self.default@, field: self.field }
    }
}

pub open spec fn spec_views(specs: Seq<AttributeSpec>) -> Seq<AttributeSpecView> {
    specs.map_values(|s: AttributeSpec| s@)
}

/// The table of attributes. A name with an underscore is no identifier of
/// the header: such an attribute is set through [`Attributes::set_value`].
pub open spec fn registry_spec() -> Seq<AttributeSpecView> {
    seq![
        AttributeSpecView { name: "rows"@, default: "0"@, field: Field::Rows },
        AttributeSpecView { name: "columns"@, default: "0"@, field: Field::Columns },
        AttributeSpecView { name: "cell_size"@, default: "15"@, field: Field::CellSize },
        AttributeSpecView { name: "dot_size"@, default: "10"@, field: Field::DotSize },
        AttributeSpecView { name: "knit"@, default: "."@, field: Field::Knit },
        AttributeSpecView { name: "purl"@, default: "X"@, field: Field::Purl },
        AttributeSpecView { name: "empty"@, default: "SPACE"@, field: Field::Empty },
        AttributeSpecView {
            name: "background_color"@,
            default: "whitesmoke"@,
            field: Field::BackgroundColor,
        },
        AttributeSpecView {
            name: "grid_color"@,
            default: "darkslategray"@,
            field: Field::GridColor,
        },
        AttributeSpecView { name: "in_the_round"@, default: "false"@, field: Field::InTheRound },
    ]
}

/// The index of the first entry of the table at or after `i` that is named
/// `name`, or the length of the table if there is none.
pub open spec fn spec_position(specs: Seq<AttributeSpecView>, name: Seq<char>, i: int) -> int
    decreases specs.len() - i,
{
    if 0 <= i < specs.len() && specs[i].name != name {
        spec_position(specs, name, i + 1)
    } else {
        i
    }
}

/// The setting that the attribute `name` writes to; `None` if the table has
/// no attribute of that name.
pub open spec fn field_of(name: Seq<char>) -> Option<Field> {
    let k = spec_position(registry_spec(), name, 0);
    if 0 <= k < registry_spec().len() {
        Some(registry_spec()[k].field)
    } else {
        None
    }
}

/// Whether `s` is the word `SPACE`, in upper or lower case or mixed.
pub open spec fn is_space_word(s: Seq<char>) -> bool {
    &&& s.len() == 5
    &&& ascii_upper(s[0]) == 'S'
    &&& ascii_upper(s[1]) == 'P'
    &&& ascii_upper(s[2]) == 'A'
    &&& ascii_upper(s[3]) == 'C'
    &&& ascii_upper(s[4]) == 'E'
}

/// The marker that `s` names: a space for the word `SPACE`, else the one
/// character that `s` consists of.
pub open spec fn marker_of(s: Seq<char>) -> Option<char> {
    if is_space_word(s) {
        Some(' ')
    } else if s.len() == 1 {
        Some(s[0])
    } else {
        None
    }
}

/// The value that the text `raw` gives to the setting `field`, or why it
/// gives none.
pub open spec fn parse_spec(field: Field, raw: Seq<char>) -> Result<AttrValueView, ErrorKindView> {
    match field {
        Field::Rows | Field::Columns => match decimal_up_to(raw, usize::MAX as nat) {
            Some(v) => Ok(AttrValueView::Count(v as usize)),
            None => Err(ErrorKindView::ParseIntError),
        },
        Field::CellSize => match decimal_up_to(raw, u32::MAX as nat) {
            Some(v) => Ok(AttrValueView::Size(v as u32)),
            None => Err(ErrorKindView::ParseIntError),
        },
        Field::DotSize => Ok(AttrValueView::Text(raw)),
        Field::Knit | Field::Purl | Field::Empty => match marker_of(raw) {
            Some(c) => Ok(AttrValueView::Marker(c)),
            None => Err(ErrorKindView::InvalidCharName),
        },
        Field::BackgroundColor | Field::GridColor => match color_of(raw) {
            Some(c) => Ok(AttrValueView::Color(c)),
            None => Err(ErrorKindView::ColorParseError),
        },
        Field::InTheRound => match truth_value(raw) {
            Some(b) => Ok(AttrValueView::Flag(b)),
            None => Err(ErrorKindView::ParseBoolError),
        },
    }
}

/// The settings of a chart.
#[derive(Debug)]
pub struct Attributes {
    /// The number of rows; 0 stands for as many as the grid has.
    pub rows: usize,
    /// The number of columns; 0 stands for the length of the longest row.
    pub columns: usize,
    /// The side of a cell.
    pub cell_size: u32,
    /// The size of the dot of a purl stitch, a decimal number as the header
    /// wrote it.
    pub dot_size: String,
    pub knit: char,
    pub purl: char,
    pub empty: char,
    pub background_color: Rgba,
    pub grid_color: Rgba,
    pub in_the_round: bool,
}

pub ghost struct AttributesView {
    pub rows: usize,
    pub columns: usize,
    pub cell_size: u32,
    pub dot_size: Seq<char>,
    pub knit: char,
    pub purl: char,
    pub empty: char,
    pub background_color: Rgba,
    pub grid_color: Rgba,
    pub in_the_round: bool,
}

impl View for Attributes {
    type V = AttributesView;

    open spec fn view(&self) -> AttributesView {
        AttributesView {
            rows: self.rows,
            columns: self.columns,
            cell_size: self.cell_size,
            dot_size: self.dot_size@,
            knit: self.knit,
            purl: self.purl,
            empty: self.empty,
            background_color: self.background_color,
            grid_color: self.grid_color,
            in_the_round: self.in_the_round,
        }
    }
}

/// `a` with `value` in the setting `field`. A value of another kind than the
/// setting holds changes nothing.
pub open spec fn store_spec(a: AttributesView, field: Field, value: AttrValueView) -> AttributesView {
    match (field, value) {
        (Field::Rows, AttrValueView::Count(n)) => AttributesView { rows: n, ..a },
        (Field::Columns, AttrValueView::Count(n)) => AttributesView { columns: n, ..a },
        (Field::CellSize, AttrValueView::Size(n)) => AttributesView { cell_size: n, ..a },
        (Field::DotSize, AttrValueView::Text(s)) => AttributesView { dot_size: s, ..a },
        (Field::Knit, AttrValueView::Marker(c)) => AttributesView { knit: c, ..a },
        (Field::Purl, AttrValueView::Marker(c)) => AttributesView { purl: c, ..a },
        (Field::Empty, AttrValueView::Marker(c)) => AttributesView { empty: c, ..a },
        (Field::BackgroundColor, AttrValueView::Color(c)) => AttributesView {
            background_color: c,
            ..a
        },
        (Field::GridColor, AttrValueView::Color(c)) => AttributesView { grid_color: c, ..a },
        (Field::InTheRound, AttrValueView::Flag(b)) => AttributesView { in_the_round: b, ..a },
        _ => a,
    }
}

/// `a` after the attribute `name` was set to the text `raw`, or why it
/// cannot be set.
pub open spec fn set_value_spec(a: AttributesView, name: Seq<char>, raw: Seq<char>) -> Result<
    AttributesView,
    ErrorKindView,
> {
    match field_of(name) {
        None => Err(ErrorKindView::UnknownAttrName(name)),
        Some(field) => match parse_spec(field, raw) {
            Ok(value) => Ok(store_spec(a, field, value)),
            Err(e) => Err(e),
        },
    }
}

/// `a` after the entries of a header from the `i`-th on were set one after
/// the other, or the first failure.
pub open spec fn resolve(entries: Seq<LineView>, i: int, a: AttributesView) -> Result<
    AttributesView,
    ErrorKindView,
>
    decreases entries.len() - i,
{
    if 0 <= i < entries.len() {
        match set_value_spec(a, entries[i].name, entries[i].value) {
            Ok(b) => resolve(entries, i + 1, b),
            Err(e) => Err(e),
        }
    } else {
        Ok(a)
    }
}

/// The settings before any attribute was read.
pub open spec fn blank() -> AttributesView {
    AttributesView {
        rows: 0,
        columns: 0,
        cell_size: 0,
        dot_size: Seq::empty(),
        knit: ' ',
        purl: ' ',
        empty: ' ',
        background_color: Rgba { r: 0, g: 0, b: 0, alpha_bits: 0 },
        grid_color: Rgba { r: 0, g: 0, b: 0, alpha_bits: 0 },
        in_the_round: false,
    }
}

/// `a` after the attributes of the table from the `i`-th on were set to
/// their default texts, or the first failure.
pub open spec fn apply_defaults(specs: Seq<AttributeSpecView>, i: int, a: AttributesView) -> Result<
    AttributesView,
    ErrorKindView,
>
    decreases specs.len() - i,
{
    if 0 <= i < specs.len() {
        match parse_spec(specs[i].field, specs[i].default) {
            Ok(value) => apply_defaults(specs, i + 1, store_spec(a, specs[i].field, value)),
            Err(e) => Err(e),
        }
    } else {
        Ok(a)
    }
}

/// The settings of a chart whose header sets nothing: no rows and columns
/// asked for, cells of 15 and dots of 10, `.` for knit, `X` for purl and a
/// space for empty, a background of whitesmoke and a grid of dark slate
/// gray, and a flat chart.
pub open spec fn defaults_spec() -> AttributesView {
    AttributesView {
        rows: 0,
        columns: 0,
        cell_size: 15,
        dot_size: "10"@,
        knit: '.',
        purl: 'X',
        empty: ' ',
        background_color: Rgba { r: 245, g: 245, b: 245, alpha_bits: OPAQUE_BITS },
        grid_color: Rgba { r: 47, g: 79, b: 79, alpha_bits: OPAQUE_BITS },
        in_the_round: false,
    }
}

/// The settings that a header with the given entries resolves to.
pub open spec fn attributes_of(entries: Seq<LineView>) -> Result<AttributesView, ErrorKindView> {
    resolve(entries, 0, defaults_spec())
}

/// Every default text of the table can be read as a value of its attribute,
/// and the defaults are what these texts give, read one after the other as
/// the values of a header are.
pub proof fn lemma_defaults_can_be_read()
    ensures
        apply_defaults(registry_spec(), 0, blank()) == Ok::<AttributesView, ErrorKindView>(
            defaults_spec(),
        ),
        forall|i: int|
            0 <= i < registry_spec().len() ==> parse_spec(
                (#[trigger] registry_spec()[i]).field,
                registry_spec()[i].default,
            ) is Ok,
{
    reveal_strlit("0");
    reveal_strlit("15");
    reveal_strlit(".");
    reveal_strlit("X");
    reveal_strlit("SPACE");
    reveal_strlit("false");
    reveal_strlit("true");
    reveal_strlit("whitesmoke");
    reveal_strlit("darkslategray");
    let specs = registry_spec();
    assert(decimal_up_to("0"@, usize::MAX as nat) == Some(0nat)) by {
        reveal_with_fuel(digits_value, 3);
        assert("0"@.drop_last() =~= Seq::<char>::empty());
    }
    assert(decimal_up_to("15"@, u32::MAX as nat) == Some(15nat)) by {
        reveal_with_fuel(digits_value, 3);
        assert("15"@.drop_last() =~= seq!['1']);
        assert(seq!['1'].drop_last() =~= Seq::<char>::empty());
    }
    let a0 = blank();
    let a1 = AttributesView { rows: 0, ..a0 };
    let a2 = AttributesView { columns: 0, ..a1 };
    let a3 = AttributesView { cell_size: 15, ..a2 };
    let a4 = AttributesView { dot_size: "10"@, ..a3 };
    let a5 = AttributesView { knit: '.', ..a4 };
    let a6 = AttributesView { purl: 'X', ..a5 };
    let a7 = AttributesView { empty: ' ', ..a6 };
    let a8 = AttributesView {
        background_color: Rgba { r: 245, g: 245, b: 245, alpha_bits: OPAQUE_BITS },
        ..a7
    };
    let a9 = AttributesView {
        grid_color: Rgba { r: 47, g: 79, b: 79, alpha_bits: OPAQUE_BITS },
        ..a8
    };
    let a10 = AttributesView { in_the_round: false, ..a9 };
    assert(apply_defaults(specs, 0, a0) == apply_defaults(specs, 1, a1));
    assert(apply_defaults(specs, 1, a1) == apply_defaults(specs, 2, a2));
    assert(apply_defaults(specs, 2, a2) == apply_defaults(specs, 3, a3));
    assert(apply_defaults(specs, 3, a3) == apply_defaults(specs, 4, a4));
    assert(apply_defaults(specs, 4, a4) == apply_defaults(specs, 5, a5));
    assert(apply_defaults(specs, 5, a5) == apply_defaults(specs, 6, a6));
    assert(apply_defaults(specs, 6, a6) == apply_defaults(specs, 7, a7));
    assert(apply_defaults(specs, 7, a7) == apply_defaults(specs, 8, a8));
    assert(apply_defaults(specs, 8, a8) == apply_defaults(specs, 9, a9));
    assert(apply_defaults(specs, 9, a9) == apply_defaults(specs, 10, a10));
    assert(apply_defaults(specs, 10, a10) == Ok::<AttributesView, ErrorKindView>(a10));
    assert(a10 == defaults_spec());
}

/// The table of attributes.
pub fn registry() -> (r: Vec<AttributeSpec>)
    ensures
        spec_views(r@) == registry_spec(),
{
    let r = vec![
        AttributeSpec { name: "rows", default: "0", field: Field::Rows },
        AttributeSpec { name: "columns", default: "0", field: Field::Columns },
        AttributeSpec { name: "cell_size", default: "15", field: Field::CellSize },
        AttributeSpec { name: "dot_size", default: "10", field: Field::DotSize },
        AttributeSpec { name: "knit", default: ".", field: Field::Knit },
        AttributeSpec { name: "purl", default: "X", field: Field::Purl },
        AttributeSpec { name: "empty", default: "SPACE", field: Field::Empty },
        AttributeSpec {
            name: "background_color",
            default: "whitesmoke",
            field: Field::BackgroundColor,
        },
        AttributeSpec { name: "grid_color", default: "darkslategray", field: Field::GridColor },
        AttributeSpec { name: "in_the_round", default: "false", field: Field::InTheRound },
    ];
    assert(spec_views(r@) =~= registry_spec());
    r
}

/// The setting that the attribute `name` writes to.
pub fn find_field(name: &str) -> (r: Option<Field>)
    ensures
        r == field_of(name@),
{
    let specs = registry();
    let n = specs.len();
    let mut k: usize = 0;
    while k < n
        invariant
            n == specs@.len(),
            spec_views(specs@) == registry_spec(),
            k <= n,
            spec_position(registry_spec(), name@, 0) == spec_position(
                registry_spec(),
                name@,
                k as int,
            ),
        decreases n - k,
    {
        assert(spec_views(specs@)[k as int] == specs@[k as int]@);
        if str_eq(specs[k].name, name) {
            return Some(specs[k].field);
        }
        k = k + 1;
    }
    None
}

/// Reads a marker: the word `SPACE`, in any case, for a space, or else the
/// single character that the text consists of.
pub fn parse_char_name(s: &str) -> (r: Result<char, ErrorKind>)
    ensures
        match marker_of(s@) {
            Some(c) => r == Ok::<char, ErrorKind>(c),
            None => r matches Err(e) && e@ == ErrorKindView::InvalidCharName,
        },
{
    let chars = chars_of(s);
    if chars.len() == 5 && to_ascii_uppercase(chars[0]) == 'S' && to_ascii_uppercase(chars[1])
        == 'P' && to_ascii_uppercase(chars[2]) == 'A' && to_ascii_uppercase(chars[3]) == 'C'
        && to_ascii_uppercase(chars[4]) == 'E' {
        return Ok(' ');
    }
    if chars.len() == 1 {
        Ok(chars[0])
    } else {
        Err(ErrorKind::InvalidCharName)
    }
}

/// Reads the text `raw` as a value for the setting `field`.
pub fn parse_value(field: Field, raw: &str) -> (r: Result<AttrValue, ErrorKind>)
    ensures
        match parse_spec(field, raw@) {
            Ok(v) => r matches Ok(x) && x@ == v,
            Err(e) => r matches Err(x) && x@ == e,
        },
{
    match field {
        Field::Rows | Field::Columns => match parse_usize(raw) {
            Ok(n) => Ok(AttrValue::Count(n)),
            Err(e) => Err(ErrorKind::ParseIntError(e)),
        },
        Field::CellSize => match parse_u32(raw) {
            Ok(n) => Ok(AttrValue::Size(n)),
            Err(e) => Err(ErrorKind::ParseIntError(e)),
        },
        Field::DotSize => Ok(AttrValue::Text(raw.to_owned())),
        Field::Knit | Field::Purl | Field::Empty => match parse_char_name(raw) {
            Ok(c) => Ok(AttrValue::Marker(c)),
            Err(e) => Err(e),
        },
        Field::BackgroundColor | Field::GridColor => match read_color(raw) {
            Ok(c) => Ok(AttrValue::Color(c)),
            Err(e) => Err(ErrorKind::ColorParseError(e)),
        },
        Field::InTheRound => match parse_bool(raw) {
            Ok(b) => Ok(AttrValue::Flag(b)),
            Err(e) => Err(ErrorKind::ParseBoolError(e)),
        },
    }
}

impl Attributes {
    /// Writes `value` to the setting `field`. A value of another kind than
    /// the setting holds is dropped.
    pub fn store(&mut self, field: Field, value: AttrValue)
        ensures
            final(self)@ == store_spec(old(self)@, field, value@),
    {
        match (field, value) {
            (Field::Rows, AttrValue::Count(n)) => {
                self.rows = n;
            },
            (Field::Columns, AttrValue::Count(n)) => {
                self.columns = n;
            },
            (Field::CellSize, AttrValue::Size(n)) => {
                self.cell_size = n;
            },
            (Field::DotSize, AttrValue::Text(s)) => {
                self.dot_size = s;
            },
            (Field::Knit, AttrValue::Marker(c)) => {
                self.knit = c;
            },
            (Field::Purl, AttrValue::Marker(c)) => {
                self.purl = c;
            },
            (Field::Empty, AttrValue::Marker(c)) => {
                self.empty = c;
            },
            (Field::BackgroundColor, AttrValue::Color(c)) => {
                self.background_color = c;
            },
            (Field::GridColor, AttrValue::Color(c)) => {
                self.grid_color = c;
            },
            (Field::InTheRound, AttrValue::Flag(b)) => {
                self.in_the_round = b;
            },
            _ => {},
        }
    }

    /// Sets the attribute `name` to the text `value`. On failure nothing
    /// changes.
    pub fn set_value(&mut self, name: &str, value: &str) -> (r: Result<(), ErrorKind>)
        ensures
            match set_value_spec(old(self)@, name@, value@) {
                Ok(a) => r is Ok && final(self)@ == a,
                Err(e) => (r matches Err(x) && x@ == e) && final(self)@ == old(self)@,
            },
    {
        match find_field(name) {
            None => Err(ErrorKind::UnknownAttrName(name.to_owned())),
            Some(field) => match parse_value(field, value) {
                Ok(v) => {
                    self.store(field, v);
                    Ok(())
                },
                Err(e) => Err(e),
            },
        }
    }

    /// Resolves a header: starts from the defaults and sets each attribute
    /// of the header, in the order in which the header first named them.
    pub fn new(hdr: Header) -> (r: Result<Attributes, ErrorKind>)
        ensures
            match attributes_of(hdr@) {
                Ok(a) => r matches Ok(x) && x@ == a,
                Err(e) => r matches Err(x) && x@ == e,
            },
    {
        let mut attrs = Attributes::default();
        let entries = hdr.iter();
        let n = entries.len();
        let mut i: usize = 0;
        while i < n
            invariant
                n == entries@.len(),
                n == hdr@.len(),
                i <= n,
                forall|j: int|
                    0 <= j < n ==> (#[trigger] entries@[j]).0@ == hdr@[j].name && entries@[j].1@
                        == hdr@[j],
                attributes_of(hdr@) == resolve(hdr@, i as int, attrs@),
            decreases n - i,
        {
            let name = entries[i].0.as_str();
            let value = entries[i].1.value();
            match attrs.set_value(name, value) {
                Ok(()) => {},
                Err(e) => {
                    return Err(e);
                },
            }
            i = i + 1;
        }
        Ok(attrs)
    }
}

impl Default for Attributes {
    /// The settings of a chart whose header sets nothing. Every default text
    /// of the table is read as a value in a header would be.
    fn default() -> (r: Attributes)
        ensures
            r@ == defaults_spec(),
    {
        let mut attrs = Attributes {
            rows: 0,
            columns: 0,
            cell_size: 0,
            dot_size: String::new(),
            knit: ' ',
            purl: ' ',
            empty: ' ',
            background_color: Rgba { r: 0, g: 0, b: 0, alpha_bits: 0 },
            grid_color: Rgba { r: 0, g: 0, b: 0, alpha_bits: 0 },
            in_the_round: false,
        };
        assert(attrs@ == blank());
        proof {
            lemma_defaults_can_be_read();
        }
        let specs = registry();
        let n = specs.len();
        let mut i: usize = 0;
        while i < n
            invariant
                n == specs@.len(),
                spec_views(specs@) == registry_spec(),
                i <= n,
                apply_defaults(registry_spec(), i as int, attrs@) == Ok::<
                    AttributesView,
                    ErrorKindView,
                >(defaults_spec()),
            decreases n - i,
        {
            assert(spec_views(specs@)[i as int] == specs@[i as int]@);
            match parse_value(specs[i].field, specs[i].default) {
                Ok(v) => {
                    attrs.store(specs[i].field, v);
                },
                Err(_) => {
                    // No default text of the table is refused.
                    assert(false);
                },
            }
            i = i + 1;
        }
        attrs
    }
}

} // verus!
