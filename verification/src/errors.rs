//! The failures a parse can end in.

use vstd::prelude::*;

verus! {

/// `css_color_parser::ColorParseError`, the failure of
/// `css_color_parser::Color::from_str`; it is only carried through.
#[verifier::external_type_specification]
#[verifier::external_body]
pub struct ExColorParseError(css_color_parser::ColorParseError);

/// `std::num::ParseIntError`, the failure of reading an integer; it is only
/// carried through.
#[verifier::external_type_specification]
#[verifier::external_body]
pub struct ExParseIntError(std::num::ParseIntError);

/// `std::str::ParseBoolError`, the failure of reading a truth value; it is
/// only carried through.
#[verifier::external_type_specification]
#[verifier::external_body]
pub struct ExParseBoolError(std::str::ParseBoolError);

/// Why a chart could not be read. Line numbers are 1-indexed.
#[derive(Debug)]
pub enum ErrorKind {
    /// A character of the grid is none of the three stitch markers.
    BadStitchChar,
    /// A header line holds a bare token and no `=`.
    BadHeaderLine(usize),
    /// An attribute name does not start with an ASCII letter.
    IdentInitialNotAlpha(usize),
    /// An attribute name holds a character that is no ASCII letter or digit.
    IdentInvalidChar(usize),
    /// A marker value is neither a single character nor the word `SPACE`.
    InvalidCharName,
    /// Nothing stands before the `=` of a header line.
    MissingIdent(usize),
    /// The header names an attribute that does not exist.
    UnknownAttrName(String),
    /// A colour value was not understood; the cause is kept.
    ColorParseError(css_color_parser::ColorParseError),
    /// A numeric value was not understood; the cause is kept.
    ParseIntError(std::num::ParseIntError),
    /// A truth value was not understood; the cause is kept.
    ParseBoolError(std::str::ParseBoolError),
}

/// The mathematical content of an [`ErrorKind`]: the variant, the line number
/// or name it carries, and nothing of an underlying cause.
pub ghost enum ErrorKindView {
    BadStitchChar,
    BadHeaderLine(usize),
    IdentInitialNotAlpha(usize),
    IdentInvalidChar(usize),
    InvalidCharName,
    MissingIdent(usize),
    UnknownAttrName(Seq<char>),
    ColorParseError,
    ParseIntError,
    ParseBoolError,
}

impl View for ErrorKind {
    type V = ErrorKindView;

    open spec fn view(&self) -> ErrorKindView {
        match self {
            ErrorKind::BadStitchChar => ErrorKindView::BadStitchChar,
            ErrorKind::BadHeaderLine(n) => ErrorKindView::BadHeaderLine(*n),
            ErrorKind::IdentInitialNotAlpha(n) => ErrorKindView::IdentInitialNotAlpha(*n),
            ErrorKind::IdentInvalidChar(n) => ErrorKindView::IdentInvalidChar(*n),
            ErrorKind::InvalidCharName => ErrorKindView::InvalidCharName,
            ErrorKind::MissingIdent(n) => ErrorKindView::MissingIdent(*n),
            ErrorKind::UnknownAttrName(name) => ErrorKindView::UnknownAttrName(name@),
            ErrorKind::ColorParseError(_) => ErrorKindView::ColorParseError,
            ErrorKind::ParseIntError(_) => ErrorKindView::ParseIntError,
            ErrorKind::ParseBoolError(_) => ErrorKindView::ParseBoolError,
        }
    }
}

impl ErrorKind {
    /// A short fixed description of the kind of failure.
    pub fn description(&self) -> (r: &'static str)
        ensures
            r@ == (match self@ {
                ErrorKindView::BadStitchChar => "Bad stitch char"@,
                ErrorKindView::BadHeaderLine(_) => "A badly formed header line was found"@,
                ErrorKindView::IdentInitialNotAlpha(_) =>
                    "An identifier has an invalid first character."@,
                ErrorKindView::IdentInvalidChar(_) => "An identifier has a non-alnum character."@,
                ErrorKindView::InvalidCharName => "A char was badly named."@,
                ErrorKindView::MissingIdent(_) => "An identifier is missing in the header."@,
                ErrorKindView::UnknownAttrName(_) => "Unknown attr name"@,
                ErrorKindView::ColorParseError => "A colour was badly written."@,
                ErrorKindView::ParseIntError => "A number was badly written."@,
                ErrorKindView::ParseBoolError => "A truth value was badly written."@,
            }),
    {
        match self {
            ErrorKind::BadStitchChar => "Bad stitch char",
            ErrorKind::BadHeaderLine(_) => "A badly formed header line was found",
            ErrorKind::IdentInitialNotAlpha(_) => "An identifier has an invalid first character.",
            ErrorKind::IdentInvalidChar(_) => "An identifier has a non-alnum character.",
            ErrorKind::InvalidCharName => "A char was badly named.",
            ErrorKind::MissingIdent(_) => "An identifier is missing in the header.",
            ErrorKind::UnknownAttrName(_) => "Unknown attr name",
            ErrorKind::ColorParseError(_) => "A colour was badly written.",
            ErrorKind::ParseIntError(_) => "A number was badly written.",
            ErrorKind::ParseBoolError(_) => "A truth value was badly written.",
        }
    }
}

} // verus!
