use knitchart::attributes::Attributes;
use knitchart::chart::{
    figure_out_cols, figure_out_rows, fix_problems, fixup_cols, fixup_rows, Chart, Stitch, Warning,
};
use knitchart::color::Rgba;
use knitchart::errors::ErrorKind;
use knitchart::header::Header;
use knitchart::lexer::Input;
use knitchart::text::{
    chars_of, find_char, is_ascii_alphabetic, is_ascii_alphanumeric, is_ascii_whitespace,
    is_whitespace, slice_of, str_eq, to_ascii_uppercase, trim,
};

use knitchart::chart::Stitch::{Empty, Knit, Purl};

fn attrs(header: &str) -> Attributes {
    Attributes::new(Header::new(&mut Input::new(header)).unwrap()).unwrap()
}

fn grid(chart: &Chart) -> Vec<Vec<Stitch>> {
    (0..chart.grid_rows())
        .map(|r| (0..chart.columns()).map(|c| chart.stitch(r, c)).collect())
        .collect()
}

#[test]
fn scenario_header_sets_attributes() {
    let text = "rows=32\ncolumns=64\nknit=SPACE\npurl=X\nempty=#\nCHART\n X#\n";
    let chart = Chart::read(Input::new(text)).unwrap();
    let a = chart.attributes();
    assert_eq!(32, a.rows);
    assert_eq!(64, a.columns);
    assert_eq!(' ', a.knit);
    assert_eq!('X', a.purl);
    assert_eq!('#', a.empty);
    assert_eq!(32, chart.rows());
    assert_eq!(64, chart.columns());
    assert_eq!(32, chart.grid_rows());
    assert_eq!(Knit, chart.stitch(0, 0));
    assert_eq!(Purl, chart.stitch(0, 1));
    assert_eq!(Empty, chart.stitch(0, 2));
    assert_eq!(Knit, chart.stitch(0, 63));
    assert_eq!(Knit, chart.stitch(31, 63));
}

#[test]
fn scenario_bad_stitch_char() {
    // A header that ends with the text, then a grid line with a stranger.
    let a = attrs("knit=.\npurl=X\n");
    let lines = vec!["..X".to_string(), ".Z.".to_string()];
    assert!(matches!(Chart::read_stitches(&a, &lines), Err(ErrorKind::BadStitchChar)));
    assert!(matches!(Chart::read_line(&a, ".Z."), Err(ErrorKind::BadStitchChar)));
    // The same through the whole reader.
    let r = Chart::read(Input::new("knit=.\nCHART\n..X\n.Z.\n"));
    assert!(matches!(r, Err(ErrorKind::BadStitchChar)));
}

#[test]
fn scenario_too_few_rows() {
    let chart = Chart::read(Input::new("rows=5\nCHART\n.X\nX.\n..\n")).unwrap();
    assert_eq!(5, chart.rows());
    assert_eq!(2, chart.columns());
    assert_eq!(
        vec![
            vec![Knit, Purl],
            vec![Purl, Knit],
            vec![Knit, Knit],
            vec![Knit, Knit],
            vec![Knit, Knit]
        ],
        grid(&chart)
    );
    assert_eq!(
        &vec![Warning::TooFewRows, Warning::MissingStitches, Warning::MissingStitches],
        chart.warnings()
    );
}

#[test]
fn scenario_long_row_is_truncated() {
    let chart = Chart::read(Input::new("columns=3\nCHART\n.X.XX\n.X.\n")).unwrap();
    assert_eq!(2, chart.rows());
    assert_eq!(3, chart.columns());
    assert_eq!(vec![vec![Knit, Purl, Knit], vec![Knit, Purl, Knit]], grid(&chart));
    assert_eq!(&vec![Warning::TooManyStitches], chart.warnings());
}

#[test]
fn rectangular_grid_is_kept_without_warnings() {
    let chart = Chart::read(Input::new("rows=2\ncolumns=3\nCHART\n.X \nX. \n")).unwrap();
    assert_eq!(vec![vec![Knit, Purl, Empty], vec![Purl, Knit, Empty]], grid(&chart));
    assert!(chart.warnings().is_empty());

    let a = attrs("rows=2\ncolumns=3\n");
    let mut stitches = vec![vec![Knit, Purl, Empty], vec![Purl, Knit, Empty]];
    let (rows, cols, warnings) = fix_problems(&a, &mut stitches);
    assert_eq!((2, 3), (rows, cols));
    assert!(warnings.is_empty());
    assert_eq!(vec![vec![Knit, Purl, Empty], vec![Purl, Knit, Empty]], stitches);
    // Once more: nothing changes.
    let (rows, cols, warnings) = fix_problems(&a, &mut stitches);
    assert_eq!((2, 3), (rows, cols));
    assert!(warnings.is_empty());
    assert_eq!(vec![vec![Knit, Purl, Empty], vec![Purl, Knit, Empty]], stitches);
}

#[test]
fn sizes_are_inferred_from_the_grid() {
    let chart = Chart::read(Input::new("CHART\n.\n.XX.\n\nXX\n")).unwrap();
    assert_eq!(4, chart.rows());
    assert_eq!(4, chart.columns());
    assert_eq!(
        vec![
            vec![Knit, Knit, Knit, Knit],
            vec![Knit, Purl, Purl, Knit],
            vec![Knit, Knit, Knit, Knit],
            vec![Purl, Purl, Knit, Knit]
        ],
        grid(&chart)
    );
    assert_eq!(
        &vec![Warning::MissingStitches, Warning::MissingStitches, Warning::MissingStitches],
        chart.warnings()
    );
}

#[test]
fn surplus_rows_stay() {
    let chart = Chart::read(Input::new("rows=1\nCHART\n.\nX\n.\n")).unwrap();
    assert_eq!(1, chart.rows());
    assert_eq!(3, chart.grid_rows());
    assert_eq!(1, chart.columns());
    assert_eq!(vec![vec![Knit], vec![Purl], vec![Knit]], grid(&chart));
    assert_eq!(&vec![Warning::TooManyRows], chart.warnings());
}

#[test]
fn empty_text_is_an_empty_chart() {
    let chart = Chart::read(Input::new("")).unwrap();
    assert_eq!(0, chart.rows());
    assert_eq!(0, chart.columns());
    assert_eq!(0, chart.grid_rows());
    assert!(chart.warnings().is_empty());
    assert_eq!(
        Rgba { r: 245, g: 245, b: 245, alpha_bits: 1.0f32.to_bits() },
        chart.background_color()
    );
    assert_eq!(Rgba { r: 47, g: 79, b: 79, alpha_bits: 1.0f32.to_bits() }, chart.grid_color());
}

#[test]
fn grid_ends_at_the_end_word() {
    let chart = Chart::read(Input::new("CHART\n.X\nOSAAT and more\nXX\n")).unwrap();
    assert_eq!(vec![vec![Knit, Purl]], grid(&chart));
    // The word must stand at the beginning of the line.
    let r = Chart::read(Input::new("knit=O\npurl=S\nempty=A\nCHART\n OSAAT\n"));
    assert!(matches!(r, Err(ErrorKind::BadStitchChar)));
    let chart = Chart::read(Input::new("knit=O\npurl=S\nempty=A\nCHART\nOSAA\nOSAAT\nOO")).unwrap();
    assert_eq!(vec![vec![Knit, Purl, Empty, Empty]], grid(&chart));
}

#[test]
fn last_line_needs_no_line_feed() {
    let chart = Chart::read(Input::new("CHART\n.X\nX.")).unwrap();
    assert_eq!(vec![vec![Knit, Purl], vec![Purl, Knit]], grid(&chart));
    assert!(chart.warnings().is_empty());
}

#[test]
fn carriage_return_is_no_marker() {
    let r = Chart::read(Input::new("CHART\r\n.X\r\n"));
    assert!(matches!(r, Err(ErrorKind::BadStitchChar)));
}

#[test]
fn header_errors_stop_the_chart() {
    assert!(matches!(Chart::read(Input::new("oops\nCHART\n.\n")), Err(ErrorKind::BadHeaderLine(1))));
    assert!(matches!(
        Chart::read(Input::new("rows=many\nCHART\n.\n")),
        Err(ErrorKind::ParseIntError(_))
    ));
    match Chart::read(Input::new("size=3\nCHART\n.\n")) {
        Err(ErrorKind::UnknownAttrName(name)) => assert_eq!("size", name),
        other => panic!("{:?}", other.map(|_| ())),
    }
    // Without the word that ends the header a grid line is a header line.
    assert!(matches!(Chart::read(Input::new("knit=.\n..\n")), Err(ErrorKind::BadHeaderLine(2))));
}

#[test]
fn equal_markers_go_by_precedence() {
    let a = attrs("knit=a\npurl=a\nempty=a\n");
    assert_eq!(vec![Knit, Knit], Chart::read_line(&a, "aa").unwrap());
    let a = attrs("knit=k\npurl=a\nempty=a\n");
    assert_eq!(vec![Purl, Knit], Chart::read_line(&a, "ak").unwrap());
    let a = attrs("");
    assert_eq!(vec![Knit, Purl, Empty], Chart::read_line(&a, ".X ").unwrap());
    assert_eq!(Vec::<Stitch>::new(), Chart::read_line(&a, "").unwrap());
}

#[test]
fn fixup_rows_pads_and_reports() {
    let mut stitches = vec![vec![Knit]];
    assert_eq!(vec![Warning::TooFewRows], fixup_rows(3, &mut stitches));
    assert_eq!(vec![vec![Knit], vec![], vec![]], stitches);
    assert_eq!(vec![Warning::TooManyRows], fixup_rows(2, &mut stitches));
    assert_eq!(vec![vec![Knit], vec![], vec![]], stitches);
    assert_eq!(Vec::<Warning>::new(), fixup_rows(3, &mut stitches));
    assert_eq!(vec![vec![Knit], vec![], vec![]], stitches);
}

#[test]
fn fixup_cols_cuts_and_fills() {
    let mut stitches = vec![vec![Purl, Purl, Purl], vec![Empty, Empty], vec![Purl], vec![]];
    let w = fixup_cols(2, &mut stitches);
    assert_eq!(
        vec![Warning::TooManyStitches, Warning::MissingStitches, Warning::MissingStitches],
        w
    );
    assert_eq!(
        vec![vec![Purl, Purl], vec![Empty, Empty], vec![Purl, Knit], vec![Knit, Knit]],
        stitches
    );
    let mut none: Vec<Vec<Stitch>> = Vec::new();
    assert_eq!(Vec::<Warning>::new(), fixup_cols(4, &mut none));
    assert!(none.is_empty());
    let mut cut = vec![vec![Purl, Purl]];
    assert_eq!(vec![Warning::TooManyStitches], fixup_cols(0, &mut cut));
    assert_eq!(vec![Vec::<Stitch>::new()], cut);
}

#[test]
fn figure_out_sizes() {
    let stitches = vec![vec![Knit], vec![Knit, Knit, Knit], vec![Knit, Knit]];
    assert_eq!(3, figure_out_rows(&attrs(""), &stitches));
    assert_eq!(3, figure_out_cols(&attrs(""), &stitches));
    assert_eq!(7, figure_out_rows(&attrs("rows=7\n"), &stitches));
    assert_eq!(2, figure_out_cols(&attrs("columns=2\n"), &stitches));
    let none: Vec<Vec<Stitch>> = Vec::new();
    assert_eq!(0, figure_out_rows(&attrs(""), &none));
    assert_eq!(0, figure_out_cols(&attrs(""), &none));
}

#[test]
fn fix_problems_reports_rows_before_columns() {
    let a = attrs("rows=3\ncolumns=2\n");
    let mut stitches = vec![vec![Purl, Purl, Purl], vec![Purl]];
    let (rows, cols, warnings) = fix_problems(&a, &mut stitches);
    assert_eq!((3, 2), (rows, cols));
    assert_eq!(
        vec![
            Warning::TooFewRows,
            Warning::TooManyStitches,
            Warning::MissingStitches,
            Warning::MissingStitches
        ],
        warnings
    );
    assert_eq!(vec![vec![Purl, Purl], vec![Purl, Knit], vec![Knit, Knit]], stitches);
}

#[test]
fn symbols_and_messages() {
    assert_eq!('.', Knit.symbol());
    assert_eq!('*', Purl.symbol());
    assert_eq!('#', Empty.symbol());
    assert_eq!("You have more rows then you specified", Warning::TooManyRows.message());
    assert_eq!("You have too few rows. I'm adding some for you.", Warning::TooFewRows.message());
    assert_eq!(
        "You have too many stitches in one row. Truncating",
        Warning::TooManyStitches.message()
    );
    assert_eq!(
        "You are missing stitches in one row. Adding knits.",
        Warning::MissingStitches.message()
    );
}

#[test]
fn text_helpers_agree_with_the_standard_library() {
    for code in 0u32..0x3100 {
        if let Some(c) = char::from_u32(code) {
            assert_eq!(c.is_whitespace(), is_whitespace(c), "{:?}", c);
            assert_eq!(c.is_ascii_whitespace(), is_ascii_whitespace(c), "{:?}", c);
            assert_eq!(c.is_ascii_alphabetic(), is_ascii_alphabetic(c), "{:?}", c);
            assert_eq!(c.is_ascii_alphanumeric(), is_ascii_alphanumeric(c), "{:?}", c);
            assert_eq!(c.to_ascii_uppercase(), to_ascii_uppercase(c), "{:?}", c);
        }
    }
    for s in ["", " ", "  a b \t\n", "\u{a0}x\u{2003}", "x", "\n\n", " = "] {
        let t: String = trim(&chars_of(s)).into_iter().collect();
        assert_eq!(s.trim(), t, "{:?}", s);
    }
    assert_eq!(vec!['a', 'é', 'b'], chars_of("aéb"));
    assert_eq!(vec!['é', 'b'], slice_of(&chars_of("aéb"), 1, 3));
    assert_eq!(1, find_char(&chars_of("a=b=c"), '='));
    assert_eq!(3, find_char(&chars_of("abc"), '='));
    assert!(str_eq("rows", "rows"));
    assert!(!str_eq("rows", "row"));
    assert!(!str_eq("rows", "rowz"));
}
