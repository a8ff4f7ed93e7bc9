use std::str::FromStr;

use css_color_parser::Color as CssColor;
use knitchart::attributes::{
    find_field, parse_char_name, parse_value, registry, AttrValue, Attributes, Field,
};
use knitchart::color::{is_nan, read_color, settle_alpha, Rgba, NAN_BITS, OPAQUE_BITS};
use knitchart::errors::ErrorKind;
use knitchart::header::Header;
use knitchart::lexer::Input;

fn rgba(c: CssColor) -> Rgba {
    Rgba { r: c.r, g: c.g, b: c.b, alpha_bits: c.a.to_bits() }
}

fn resolve(header: &str) -> Result<Attributes, ErrorKind> {
    let hdr = Header::new(&mut Input::new(header)).unwrap();
    Attributes::new(hdr)
}

#[test]
fn test_default() {
    let attrs = Attributes::default();

    assert_eq!(0, attrs.rows);
    assert_eq!(0, attrs.columns);
    assert_eq!(15.0, f64::from(attrs.cell_size));
    assert_eq!(10.0, attrs.dot_size.parse::<f64>().unwrap());
    assert_eq!('.', attrs.knit);
    assert_eq!('X', attrs.purl);
    assert_eq!(' ', attrs.empty);
    assert_eq!(
        rgba(CssColor::from_str("whitesmoke").unwrap()),
        attrs.background_color
    );
    assert_eq!(
        rgba(CssColor::from_str("darkslategray").unwrap()),
        attrs.grid_color
    );
    assert_eq!(false, attrs.in_the_round);
}

#[test]
fn test_parse_char_name() {
    assert_eq!(' ', parse_char_name(" ").unwrap());
    assert_eq!('.', parse_char_name(".").unwrap());

    assert_eq!(' ', parse_char_name("SPACE").unwrap());

    assert!(parse_char_name("").is_err());
    assert!(parse_char_name("XX").is_err());
}

#[test]
fn test_attributes() {
    let header_str = r#"
rows=32
columns=64
cell_size=25
dot_size=15.5
knit=SPACE
purl=X
empty=#
background_color=sienna
grid_color=crimson
in_the_round=true
"#;
    // A name with an underscore is no identifier: the header stops at the
    // first such line, and these attributes are set one by one.
    assert!(matches!(
        Header::new(&mut Input::new(header_str)),
        Err(ErrorKind::IdentInvalidChar(4))
    ));
    let mut plain = String::new();
    let mut attrs = Attributes::default();
    for line in header_str.lines() {
        match line.split_once('=') {
            Some((name, value)) if name.contains('_') => attrs.set_value(name, value).unwrap(),
            _ => {
                plain.push_str(line);
                plain.push('\n');
            }
        }
    }
    let hdr = Header::new(&mut Input::new(&plain)).unwrap();
    assert_eq!(5, hdr.num_attributes());
    for (name, line) in hdr.iter() {
        attrs.set_value(&name, line.value()).unwrap();
    }
    let resolved = Attributes::new(hdr).unwrap();
    assert_eq!(resolved.rows, attrs.rows);
    assert_eq!(resolved.columns, attrs.columns);
    assert_eq!(resolved.knit, attrs.knit);
    assert_eq!(resolved.purl, attrs.purl);
    assert_eq!(resolved.empty, attrs.empty);

    assert_eq!(32, attrs.rows);
    assert_eq!(64, attrs.columns);
    assert_eq!(25.0, f64::from(attrs.cell_size));
    assert_eq!(15.5, attrs.dot_size.parse::<f64>().unwrap());
    assert_eq!(' ', attrs.knit);
    assert_eq!('X', attrs.purl);
    assert_eq!('#', attrs.empty);
    assert_eq!(
        rgba(CssColor {
            r: 0xa0,
            g: 0x52,
            b: 0x2d,
            a: 1.0
        }),
        attrs.background_color
    );
    assert_eq!(rgba(CssColor::from_str("crimson").unwrap()), attrs.grid_color);
    assert_eq!(true, attrs.in_the_round);
}

#[test]
fn space_word_in_any_case() {
    assert_eq!(' ', parse_char_name("space").unwrap());
    assert_eq!(' ', parse_char_name("Space").unwrap());
    assert_eq!(' ', parse_char_name("sPaCe").unwrap());
    assert!(matches!(parse_char_name("SPACES"), Err(ErrorKind::InvalidCharName)));
    assert!(matches!(parse_char_name("SPAC"), Err(ErrorKind::InvalidCharName)));
    assert!(matches!(parse_char_name("BLANK"), Err(ErrorKind::InvalidCharName)));
    assert!(matches!(parse_char_name(""), Err(ErrorKind::InvalidCharName)));
    assert!(matches!(parse_char_name("XX"), Err(ErrorKind::InvalidCharName)));
}

#[test]
fn marker_is_one_character() {
    assert_eq!('#', parse_char_name("#").unwrap());
    assert_eq!('S', parse_char_name("S").unwrap());
    assert_eq!('é', parse_char_name("é").unwrap());
    assert_eq!('\t', parse_char_name("\t").unwrap());
}

#[test]
fn empty_header_gives_the_defaults() {
    let attrs = resolve("").unwrap();
    let defaults = Attributes::default();
    assert_eq!(defaults.rows, attrs.rows);
    assert_eq!(defaults.columns, attrs.columns);
    assert_eq!(defaults.cell_size, attrs.cell_size);
    assert_eq!(defaults.dot_size, attrs.dot_size);
    assert_eq!(defaults.knit, attrs.knit);
    assert_eq!(defaults.purl, attrs.purl);
    assert_eq!(defaults.empty, attrs.empty);
    assert_eq!(defaults.background_color, attrs.background_color);
    assert_eq!(defaults.grid_color, attrs.grid_color);
    assert_eq!(defaults.in_the_round, attrs.in_the_round);
    assert_eq!(15, attrs.cell_size);
    assert_eq!("10", attrs.dot_size);
}

#[test]
fn every_default_text_can_be_read() {
    let specs = registry();
    assert_eq!(10, specs.len());
    for spec in specs.iter() {
        assert!(parse_value(spec.field, spec.default).is_ok(), "{}", spec.name);
        assert_eq!(Some(spec.field), find_field(spec.name));
    }
}

#[test]
fn default_colours_have_their_channels() {
    let attrs = Attributes::default();
    assert_eq!(
        Rgba { r: 245, g: 245, b: 245, alpha_bits: 1.0f32.to_bits() },
        attrs.background_color
    );
    assert_eq!(
        Rgba { r: 47, g: 79, b: 79, alpha_bits: 1.0f32.to_bits() },
        attrs.grid_color
    );
}

#[test]
fn table_names_each_field() {
    assert_eq!(Some(Field::Rows), find_field("rows"));
    assert_eq!(Some(Field::Columns), find_field("columns"));
    assert_eq!(Some(Field::CellSize), find_field("cell_size"));
    assert_eq!(Some(Field::DotSize), find_field("dot_size"));
    assert_eq!(Some(Field::Knit), find_field("knit"));
    assert_eq!(Some(Field::Purl), find_field("purl"));
    assert_eq!(Some(Field::Empty), find_field("empty"));
    assert_eq!(Some(Field::BackgroundColor), find_field("background_color"));
    assert_eq!(Some(Field::GridColor), find_field("grid_color"));
    assert_eq!(Some(Field::InTheRound), find_field("in_the_round"));
    assert_eq!(None, find_field("Rows"));
    assert_eq!(None, find_field("row"));
    assert_eq!(None, find_field(""));
}

#[test]
fn unknown_name_fails_with_the_name() {
    let mut attrs = Attributes::default();
    match attrs.set_value("colour", "red") {
        Err(ErrorKind::UnknownAttrName(name)) => assert_eq!("colour", name),
        other => panic!("{:?}", other),
    }
    assert_eq!(0, attrs.rows);
    match resolve("rows=3\nstitches=9\n") {
        Err(ErrorKind::UnknownAttrName(name)) => assert_eq!("stitches", name),
        other => panic!("{:?}", other),
    }
}

#[test]
fn first_entry_that_fails_decides() {
    assert!(matches!(resolve("rows=x\nnope=1\n"), Err(ErrorKind::ParseIntError(_))));
    assert!(matches!(resolve("nope=1\nrows=x\n"), Err(ErrorKind::UnknownAttrName(_))));
}

#[test]
fn numbers_are_decimal_and_unsigned() {
    let mut attrs = Attributes::default();
    attrs.set_value("rows", "32").unwrap();
    assert_eq!(32, attrs.rows);
    attrs.set_value("rows", "+007").unwrap();
    assert_eq!(7, attrs.rows);
    attrs.set_value("columns", "0").unwrap();
    assert_eq!(0, attrs.columns);
    attrs.set_value("columns", &usize::MAX.to_string()).unwrap();
    assert_eq!(usize::MAX, attrs.columns);
    for bad in ["", "+", "-1", "-0", "1 ", " 1", "1_0", "0x10", "12a", "++1", "١"] {
        assert!(
            matches!(attrs.set_value("rows", bad), Err(ErrorKind::ParseIntError(_))),
            "{:?}",
            bad
        );
    }
    let too_big = format!("{}0", usize::MAX);
    assert!(matches!(attrs.set_value("rows", &too_big), Err(ErrorKind::ParseIntError(_))));
    // A failure changes nothing.
    assert_eq!(7, attrs.rows);
    assert_eq!(usize::MAX, attrs.columns);
}

#[test]
fn cell_size_fits_in_32_bits() {
    let mut attrs = Attributes::default();
    attrs.set_value("cell_size", "4294967295").unwrap();
    assert_eq!(u32::MAX, attrs.cell_size);
    assert!(matches!(
        attrs.set_value("cell_size", "4294967296"),
        Err(ErrorKind::ParseIntError(_))
    ));
    assert!(matches!(attrs.set_value("cell_size", "1.5"), Err(ErrorKind::ParseIntError(_))));
    assert_eq!(u32::MAX, attrs.cell_size);
}

#[test]
fn truth_values_are_two_words() {
    let mut attrs = Attributes::default();
    attrs.set_value("in_the_round", "true").unwrap();
    assert!(attrs.in_the_round);
    attrs.set_value("in_the_round", "false").unwrap();
    assert!(!attrs.in_the_round);
    for bad in ["", "True", "1", "yes", "true "] {
        assert!(
            matches!(attrs.set_value("in_the_round", bad), Err(ErrorKind::ParseBoolError(_))),
            "{:?}",
            bad
        );
    }
}

#[test]
fn colours_are_read_as_css() {
    let mut attrs = Attributes::default();
    attrs.set_value("background_color", "#ff0011").unwrap();
    assert_eq!(
        Rgba { r: 255, g: 0, b: 17, alpha_bits: 1.0f32.to_bits() },
        attrs.background_color
    );
    attrs.set_value("grid_color", "rgba(255, 128, 12, 0.5)").unwrap();
    assert_eq!(
        Rgba { r: 255, g: 128, b: 12, alpha_bits: 0.5f32.to_bits() },
        attrs.grid_color
    );
    assert!(matches!(
        attrs.set_value("grid_color", "blah"),
        Err(ErrorKind::ColorParseError(_))
    ));
    assert!(matches!(attrs.set_value("grid_color", ""), Err(ErrorKind::ColorParseError(_))));
    assert_eq!(
        Rgba { r: 255, g: 128, b: 12, alpha_bits: 0.5f32.to_bits() },
        attrs.grid_color
    );
}

#[test]
fn markers_fail_with_invalid_char_name() {
    assert!(matches!(resolve("knit=ab\n"), Err(ErrorKind::InvalidCharName)));
    assert!(matches!(resolve("purl=\n"), Err(ErrorKind::InvalidCharName)));
    let attrs = resolve("empty=space\nknit=k\n").unwrap();
    assert_eq!(' ', attrs.empty);
    assert_eq!('k', attrs.knit);
}

#[test]
fn dot_size_is_kept_as_written() {
    let mut attrs = Attributes::default();
    attrs.set_value("dot_size", "7.25").unwrap();
    assert_eq!("7.25", attrs.dot_size);
    assert_eq!(7.25, attrs.dot_size.parse::<f64>().unwrap());
}

#[test]
fn store_writes_the_named_field_only() {
    let mut attrs = Attributes::default();
    attrs.store(Field::Rows, AttrValue::Count(4));
    attrs.store(Field::Columns, AttrValue::Count(5));
    attrs.store(Field::CellSize, AttrValue::Size(6));
    attrs.store(Field::DotSize, AttrValue::Text("2".to_string()));
    attrs.store(Field::Knit, AttrValue::Marker('k'));
    attrs.store(Field::Purl, AttrValue::Marker('p'));
    attrs.store(Field::Empty, AttrValue::Marker('e'));
    attrs.store(Field::BackgroundColor, AttrValue::Color(Rgba { r: 1, g: 2, b: 3, alpha_bits: 4 }));
    attrs.store(Field::GridColor, AttrValue::Color(Rgba { r: 5, g: 6, b: 7, alpha_bits: 8 }));
    attrs.store(Field::InTheRound, AttrValue::Flag(true));
    assert_eq!(4, attrs.rows);
    assert_eq!(5, attrs.columns);
    assert_eq!(6, attrs.cell_size);
    assert_eq!("2", attrs.dot_size);
    assert_eq!('k', attrs.knit);
    assert_eq!('p', attrs.purl);
    assert_eq!('e', attrs.empty);
    assert_eq!(Rgba { r: 1, g: 2, b: 3, alpha_bits: 4 }, attrs.background_color);
    assert_eq!(Rgba { r: 5, g: 6, b: 7, alpha_bits: 8 }, attrs.grid_color);
    assert!(attrs.in_the_round);
    // A value of another kind is dropped.
    attrs.store(Field::Rows, AttrValue::Marker('x'));
    attrs.store(Field::Knit, AttrValue::Count(9));
    assert_eq!(4, attrs.rows);
    assert_eq!('k', attrs.knit);
}

#[test]
fn parse_value_reads_by_field() {
    assert!(matches!(parse_value(Field::Rows, "12"), Ok(AttrValue::Count(12))));
    assert!(matches!(parse_value(Field::CellSize, "12"), Ok(AttrValue::Size(12))));
    assert!(matches!(parse_value(Field::Purl, "space"), Ok(AttrValue::Marker(' '))));
    assert!(matches!(parse_value(Field::InTheRound, "true"), Ok(AttrValue::Flag(true))));
    match parse_value(Field::DotSize, "abc") {
        Ok(AttrValue::Text(s)) => assert_eq!("abc", s),
        other => panic!("{:?}", other),
    }
    match parse_value(Field::GridColor, "#fff") {
        Ok(AttrValue::Color(c)) => {
            assert_eq!(Rgba { r: 255, g: 255, b: 255, alpha_bits: 1.0f32.to_bits() }, c)
        }
        other => panic!("{:?}", other),
    }
}

#[test]
fn error_descriptions() {
    assert_eq!("Bad stitch char", ErrorKind::BadStitchChar.description());
    assert_eq!("A badly formed header line was found", ErrorKind::BadHeaderLine(1).description());
    assert_eq!(
        "An identifier has an invalid first character.",
        ErrorKind::IdentInitialNotAlpha(1).description()
    );
    assert_eq!(
        "An identifier has a non-alnum character.",
        ErrorKind::IdentInvalidChar(1).description()
    );
    assert_eq!("A char was badly named.", ErrorKind::InvalidCharName.description());
    assert_eq!(
        "An identifier is missing in the header.",
        ErrorKind::MissingIdent(1).description()
    );
    assert_eq!("Unknown attr name", ErrorKind::UnknownAttrName("x".to_string()).description());
}

#[test]
fn failures_carry_the_cause() {
    let mut attrs = Attributes::default();
    for bad in ["x", "", "-1", "99999999999999999999999999"] {
        match attrs.set_value("rows", bad) {
            Err(ErrorKind::ParseIntError(e)) => {
                assert_eq!(bad.parse::<usize>().unwrap_err(), e, "{:?}", bad)
            }
            other => panic!("{:?}", other),
        }
        match parse_value(Field::Columns, bad) {
            Err(ErrorKind::ParseIntError(e)) => {
                assert_eq!(bad.parse::<usize>().unwrap_err(), e, "{:?}", bad)
            }
            other => panic!("{:?}", other),
        }
    }
    for bad in ["x", "", "-1", "4294967296"] {
        match attrs.set_value("cell_size", bad) {
            Err(ErrorKind::ParseIntError(e)) => {
                assert_eq!(bad.parse::<u32>().unwrap_err(), e, "{:?}", bad)
            }
            other => panic!("{:?}", other),
        }
    }
    match attrs.set_value("in_the_round", "yes") {
        Err(ErrorKind::ParseBoolError(e)) => assert_eq!("yes".parse::<bool>().unwrap_err(), e),
        other => panic!("{:?}", other),
    }
    match attrs.set_value("grid_color", "blah") {
        Err(ErrorKind::ColorParseError(e)) => {
            let own = CssColor::from_str("blah").unwrap_err();
            assert_eq!(own.to_string(), e.to_string());
            assert_eq!(format!("{:?}", own), format!("{:?}", e));
            assert_eq!("ColorParseError: Invalid format", e.to_string());
        }
        other => panic!("{:?}", other),
    }
    match resolve("rows=abc\n") {
        Err(ErrorKind::ParseIntError(e)) => assert_eq!("abc".parse::<usize>().unwrap_err(), e),
        other => panic!("{:?}", other),
    }
}

#[test]
fn alpha_that_is_no_number_gets_one_pattern() {
    let mut attrs = Attributes::default();
    for text in [
        "rgba(1,2,3,nan)",
        "rgba(1,2,3,NaN)",
        "rgba(1,2,3,-nan)",
        "rgba(1,2,3,nan%)",
        "rgba(1,2,3,-nan%)",
    ] {
        attrs.set_value("grid_color", text).unwrap();
        assert_eq!(Rgba { r: 1, g: 2, b: 3, alpha_bits: NAN_BITS }, attrs.grid_color, "{}", text);
        assert_eq!(Rgba { r: 1, g: 2, b: 3, alpha_bits: NAN_BITS }, read_color(text).unwrap());
    }
    let c = read_color("hsla(0,0%,0%,nan)").unwrap();
    assert_eq!(Rgba { r: 0, g: 0, b: 0, alpha_bits: NAN_BITS }, c);
    assert!(f32::from_bits(NAN_BITS).is_nan());
    // An alpha that is a number stays as the text gave it.
    assert_eq!(
        Rgba { r: 1, g: 2, b: 3, alpha_bits: 0.25f32.to_bits() },
        read_color("rgba(1,2,3,25%)").unwrap()
    );
    assert_eq!(
        Rgba { r: 1, g: 2, b: 3, alpha_bits: 1.0f32.to_bits() },
        read_color("rgba(1,2,3,inf)").unwrap()
    );
    assert_eq!(
        Rgba { r: 1, g: 2, b: 3, alpha_bits: 0.0f32.to_bits() },
        read_color("rgba(1,2,3,-5)").unwrap()
    );
    assert!(read_color("rgba(1,2,3,x)").is_err());
}

#[test]
fn settle_alpha_changes_only_what_is_no_number() {
    assert_eq!(1.0f32.to_bits(), OPAQUE_BITS);
    for bits in [0x7fc0_0000u32, 0xffc0_0000, 0x7f80_0001, 0xff80_0001, 0x7fff_ffff, 0xffff_ffff] {
        assert!(is_nan(bits));
        assert!(f32::from_bits(bits).is_nan());
        assert_eq!(
            Rgba { r: 9, g: 8, b: 7, alpha_bits: NAN_BITS },
            settle_alpha(Rgba { r: 9, g: 8, b: 7, alpha_bits: bits })
        );
    }
    for bits in [0u32, 0x8000_0000, 0x3f80_0000, 0x3f00_0000, 0x7f80_0000, 0xff80_0000, 1, 0x007f_ffff]
    {
        assert!(!is_nan(bits));
        assert!(!f32::from_bits(bits).is_nan());
        let c = Rgba { r: 9, g: 8, b: 7, alpha_bits: bits };
        assert_eq!(c, settle_alpha(c));
    }
}

#[test]
fn default_is_what_the_table_declares() {
    let attrs = Attributes::default();
    assert_eq!(0, attrs.rows);
    assert_eq!(0, attrs.columns);
    assert_eq!(15, attrs.cell_size);
    assert_eq!("10", attrs.dot_size);
    assert_eq!('.', attrs.knit);
    assert_eq!('X', attrs.purl);
    assert_eq!(' ', attrs.empty);
    assert_eq!(Rgba { r: 245, g: 245, b: 245, alpha_bits: OPAQUE_BITS }, attrs.background_color);
    assert_eq!(Rgba { r: 47, g: 79, b: 79, alpha_bits: OPAQUE_BITS }, attrs.grid_color);
    assert!(!attrs.in_the_round);
    assert_eq!(rgba(CssColor::from_str("whitesmoke").unwrap()), read_color("whitesmoke").unwrap());
    assert_eq!(
        rgba(CssColor::from_str("darkslategray").unwrap()),
        read_color("darkslategray").unwrap()
    );
}
