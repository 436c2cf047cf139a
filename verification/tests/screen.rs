use pis_code::check::{Diagnostic, Severity};
use pis_code::editor::Editor;
use pis_code::spans::{
    apply_diagnostics, apply_selection, diagnostic_severity_map, slice_spans, Columns,
};
use pis_code::style::{Color, Span, Style};
use pis_code::syntax::{token_spans, Highlighter, Token};
use pis_code::ui::{draw, draw_row, draw_rows, draw_status, place_cursor, split_screen, Area};
use syntect::highlighting::{Theme, ThemeSet};
use syntect::parsing::{SyntaxDefinition, SyntaxSet, SyntaxSetBuilder};

fn plain() -> Style {
    Style {
        fg: None,
        bg: None,
        bold: false,
        italic: false,
        underlined: false,
        reversed: false,
    }
}

fn in_color(color: Color) -> Style {
    Style { fg: Some(color), ..plain() }
}

fn span(style: Style, text: &str) -> Span {
    Span { style, text: text.to_string() }
}

fn reading(spans: &[Span]) -> String {
    spans.iter().map(|s| s.text.as_str()).collect()
}

fn diagnostic(line: usize, col: usize, severity: Severity) -> Diagnostic {
    Diagnostic { line, col, severity, code: "CS1".to_string(), message: "m".to_string() }
}

fn open(text: &str) -> Editor {
    Editor::open(String::from("a.cs"), Some(text))
}

fn area(width: u16, height: u16) -> Area {
    Area { x: 0, y: 0, width, height }
}

// ---- spans ----

#[test]
fn the_window_cuts_through_spans() {
    let (a, b) = (in_color(Color::Red), in_color(Color::Yellow));
    let line = vec![span(a, "aé"), span(b, ""), span(b, "…cd"), span(a, "e")];
    assert_eq!(slice_spans(&line, 0, 10), vec![span(a, "aé"), span(b, "…cd"), span(a, "e")]);
    assert_eq!(slice_spans(&line, 1, 3), vec![span(a, "é"), span(b, "…c")]);
    assert_eq!(slice_spans(&line, 2, 3), vec![span(b, "…cd")]);
    assert_eq!(slice_spans(&line, 5, usize::MAX), vec![span(a, "e")]);
    assert_eq!(slice_spans(&line, 3, 0), Vec::new());
    assert_eq!(slice_spans(&line, 6, 5), Vec::new());
}

#[test]
fn the_selection_is_reversed() {
    let a = in_color(Color::Red);
    let reversed = Style { reversed: true, ..a };
    let line = || vec![span(a, "abc"), span(a, "def")];
    let columns = Some(Columns { from: 12, to: 14 });
    assert_eq!(
        apply_selection(line(), 10, columns),
        vec![span(a, "ab"), span(reversed, "c"), span(reversed, "d"), span(a, "ef")]
    );
    assert_eq!(apply_selection(line(), 10, None), line());
    assert_eq!(apply_selection(line(), 10, Some(Columns { from: 12, to: 12 })), line());
    assert_eq!(apply_selection(line(), 10, Some(Columns { from: 14, to: 12 })), line());
    assert_eq!(apply_selection(line(), 10, Some(Columns { from: 0, to: 10 })), line());
}

#[test]
fn severities_are_kept_by_column() {
    let found = vec![
        diagnostic(0, 2, Severity::Warning),
        diagnostic(0, 2, Severity::Error),
        diagnostic(0, 2, Severity::Warning),
        diagnostic(0, 1, Severity::Warning),
        diagnostic(0, 99, Severity::Error),
    ];
    let map = diagnostic_severity_map(&found, 5);
    assert_eq!(map.len(), 3);
    assert_eq!(map.get(&2), Some(&Severity::Error));
    assert_eq!(map.get(&1), Some(&Severity::Warning));
    assert_eq!(map.get(&4), Some(&Severity::Error));
    assert!(diagnostic_severity_map(&found, 0).is_empty());
    assert!(diagnostic_severity_map(&Vec::new(), 5).is_empty());
}

#[test]
fn flagged_characters_are_underlined() {
    let a = Style { bold: true, ..in_color(Color::White) };
    let error = Style { fg: Some(Color::Red), underlined: true, ..a };
    let warning = Style { fg: Some(Color::Yellow), underlined: true, ..a };
    let found = vec![
        diagnostic(0, 11, Severity::Error),
        diagnostic(0, 12, Severity::Error),
        diagnostic(0, 13, Severity::Warning),
    ];
    let map = diagnostic_severity_map(&found, 100);
    assert_eq!(
        apply_diagnostics(vec![span(a, "abcdef")], 10, &map),
        vec![span(a, "a"), span(error, "bc"), span(warning, "d"), span(a, "ef")]
    );
    let none = diagnostic_severity_map(&Vec::new(), 100);
    assert_eq!(apply_diagnostics(vec![span(a, ""), span(a, "x")], 10, &none).len(), 2);
}

#[test]
fn marks_keep_the_text() {
    let a = in_color(Color::White);
    let line = || vec![span(a, "ab"), span(plain(), "cdé"), span(a, "…")];
    for from in 0..8 {
        for to in 0..8 {
            let marked = apply_selection(line(), 1, Some(Columns { from, to }));
            assert_eq!(reading(&marked), "abcdé…");
        }
    }
}

// ---- syntax ----

fn token(text: &str, bold: bool) -> Token {
    Token {
        red: 1,
        green: 2,
        blue: 3,
        bold,
        italic: !bold,
        underline: bold,
        text: text.to_string(),
    }
}

#[test]
fn tokens_become_spans_without_newlines() {
    let tokens = vec![token("int", true), token("\n\n", true), token(" x\n", false)];
    let rgb = in_color(Color::Rgb(1, 2, 3));
    assert_eq!(
        token_spans(&tokens),
        vec![
            span(Style { bold: true, underlined: true, ..rgb }, "int"),
            span(Style { italic: true, ..rgb }, " x"),
        ]
    );
}

fn themes(names: &[&str]) -> ThemeSet {
    let mut result = ThemeSet::new();
    for name in names {
        let theme = Theme { name: Some(name.to_string()), ..Theme::default() };
        result.themes.insert(name.to_string(), theme);
    }
    result
}

fn syntaxes(definitions: &[&str]) -> SyntaxSet {
    let mut builder = SyntaxSetBuilder::new();
    for definition in definitions {
        builder.add(SyntaxDefinition::load_from_str(definition, true, None).unwrap());
    }
    builder.build()
}

const PLAIN: &str =
    "---\nname: Plain Text\nfile_extensions: [txt]\nscope: text.plain\ncontexts: {main: []}";
const NAMED: &str =
    "---\nname: C#\nfile_extensions: [csx]\nscope: source.cs\ncontexts: {main: []}";
const BY_EXTENSION: &str =
    "---\nname: Sharp\nfile_extensions: [CS]\nscope: source.cs\ncontexts: {main: []}";

fn chosen(definitions: &[&str], names: &[&str]) -> Option<(String, String)> {
    Highlighter::choose_from(syntaxes(definitions), &themes(names))
        .map(|h| (h.syntax.name, h.theme.name.unwrap()))
}

fn pair(syntax: &str, theme: &str) -> Option<(String, String)> {
    Some((syntax.to_string(), theme.to_string()))
}

#[test]
fn the_best_syntax_and_theme_are_chosen() {
    let dark = "base16-ocean.dark";
    assert_eq!(chosen(&[PLAIN, BY_EXTENSION, NAMED], &["a", dark]), pair("Sharp", dark));
    assert_eq!(chosen(&[NAMED, PLAIN], &["a", dark]), pair("C#", dark));
    assert_eq!(chosen(&[PLAIN], &["z", "b"]), pair("Plain Text", "b"));
    assert_eq!(chosen(&[], &[dark]), None);
    assert_eq!(chosen(&[PLAIN], &[]), None);
}

#[test]
fn the_engine_brings_plain_text_and_the_dark_theme() {
    let syntaxes = SyntaxSet::load_defaults_newlines();
    assert!(syntaxes.find_syntax_by_name("Plain Text").is_some());
    let themes = ThemeSet::load_defaults();
    assert!(themes.themes.contains_key("base16-ocean.dark"));
    let highlighter = Highlighter::new();
    assert_eq!(highlighter.syntax.name, "C#");
    assert_eq!(highlighter.theme, themes.themes["base16-ocean.dark"]);
}

fn lines(text: &str) -> Vec<String> {
    text.lines().map(|l| l.to_string()).collect()
}

#[test]
fn highlighting_keeps_the_text() {
    let highlighter = Highlighter::new();
    let source = lines("using System;\n\nclass C {\n    string s = \"…\"; // ß\n\tint[] a = {1, 2};\n}");
    let rows = highlighter.highlight(&source, source.len());
    assert_eq!(rows.len(), source.len());
    for (row, line) in rows.iter().zip(&source) {
        assert_eq!(&reading(row), line);
        assert!(row.iter().all(|s| !s.text.is_empty()));
    }
    assert!(rows[1].is_empty());
    assert!(rows[3].len() > 1);
}

#[test]
fn block_comments_reach_across_lines() {
    let highlighter = Highlighter::new();
    let comment = in_color(Color::Rgb(0x65, 0x73, 0x7e));
    let rows = highlighter.highlight(&lines("/* one\nint two\n*/ int x;"), 3);
    assert_eq!(rows[1], vec![span(comment, "int two")]);
    let alone = highlighter.highlight(&lines("int two"), 1);
    assert_ne!(alone[0], rows[1]);
}

#[test]
fn highlighting_stops_at_the_end() {
    let highlighter = Highlighter::new();
    let source = lines("class A {\n}\n");
    assert_eq!(highlighter.highlight(&source, 0).len(), 0);
    assert_eq!(highlighter.highlight(&source, 1).len(), 1);
    assert_eq!(highlighter.highlight(&source, usize::MAX).len(), 2);
    assert_eq!(highlighter.highlight(&source, 1)[0], highlighter.highlight(&source, 2)[0]);
}

#[test]
fn later_lines_do_not_change_earlier_ones() {
    let highlighter = Highlighter::new();
    let a = highlighter.highlight(&lines("int x = 1;\n/*"), 2);
    let b = highlighter.highlight(&lines("int x = 1;\n\"s\""), 2);
    assert_eq!(a[0], b[0]);
    assert_ne!(a[1], b[1]);
}

// ---- layout ----

#[test]
fn the_status_line_is_the_last_row() {
    for height in 0..400u16 {
        for (x, y) in [(0, 0), (3, 7), (500, 60000)] {
            let whole = Area { x, y, width: 80, height };
            let (text, status) = split_screen(whole);
            let below = if height >= 2 { 1 } else { 0 };
            assert_eq!(text, Area { height: height - below, ..whole });
            assert_eq!(status, Area { y: y + height - below, height: below, ..whole });
        }
    }
}

#[test]
fn large_and_narrow_screens_are_split_too() {
    for (width, height) in [(0, 24), (1, 1000), (65535, 2), (80, 65535), (200, 12345)] {
        let whole = area(width, height);
        let (text, status) = split_screen(whole);
        assert_eq!(text, Area { height: height - 1, ..whole });
        assert_eq!(status, Area { y: height - 1, height: 1, ..whole });
    }
}

#[test]
fn rows_start_with_their_number() {
    let mut ed = open("int x\nint y");
    ed.set_diagnostics(vec![
        diagnostic(0, 4, Severity::Warning),
        diagnostic(0, 99, Severity::Error),
        diagnostic(1, 0, Severity::Warning),
    ]);
    let row = draw_row(&ed, 0, &vec![span(plain(), "int x")], None, 76);
    let error = Style { underlined: true, ..in_color(Color::Red) };
    assert_eq!(
        row,
        vec![span(in_color(Color::Red), "  1 "), span(plain(), "int "), span(error, "x")]
    );
    let row = draw_row(&ed, 1, &vec![span(plain(), "int y")], None, 2);
    let warning = Style { underlined: true, ..in_color(Color::Yellow) };
    assert_eq!(
        row,
        vec![span(in_color(Color::Yellow), "  2 "), span(warning, "i"), span(plain(), "n")]
    );
    ed.set_diagnostics(Vec::new());
    let row = draw_row(&ed, 1, &Vec::new(), None, 2);
    assert_eq!(row, vec![span(in_color(Color::DarkGray), "  2 ")]);
}

#[test]
fn the_gutter_grows_with_the_text() {
    for (count, first) in [(9, "  1 "), (999, "  1 "), (1000, "   1 "), (12345, "    1 ")] {
        let text: String = (0..count).map(|_| "\n").collect();
        let ed = open(&text);
        assert_eq!(draw_row(&ed, 0, &Vec::new(), None, 0)[0].text, first);
    }
    let text: String = (0..1000).map(|_| "\n").collect();
    assert_eq!(draw_row(&open(&text), 999, &Vec::new(), None, 0)[0].text, "1000 ");
}

#[test]
fn rows_show_selection_and_diagnostics_together() {
    let mut ed = open("abcd");
    ed.set_diagnostics(vec![diagnostic(0, 2, Severity::Error)]);
    let row = draw_row(
        &ed,
        0,
        &vec![span(plain(), "abcd")],
        Some(Columns { from: 1, to: 3 }),
        10,
    );
    let reversed = Style { reversed: true, ..plain() };
    let both = Style { fg: Some(Color::Red), underlined: true, ..reversed };
    assert_eq!(
        row[1..],
        [span(plain(), "a"), span(reversed, "b"), span(both, "c"), span(plain(), "d")]
    );
    assert_eq!(reading(&row), "  1 abcd");
}

#[test]
fn rows_behind_the_text_are_empty() {
    let ed = open("a\nb");
    let highlighted = vec![vec![span(plain(), "a")], vec![span(plain(), "b")]];
    let rows = draw_rows(area(20, 4), &ed, &highlighted);
    assert_eq!(rows.len(), 4);
    assert_eq!(reading(&rows[0]), "  1 a");
    assert_eq!(reading(&rows[1]), "  2 b");
    assert!(rows[2].is_empty() && rows[3].is_empty());
}

#[test]
fn the_message_stands_at_the_right_edge() {
    let mut ed = open("");
    ed.status_message = "Saved a.cs".to_string();
    let left = " a.cs  Ln 1, Col 1  0 chars, 1 lines";
    let status = draw_status(&ed, 60);
    assert_eq!(status.text, format!("{left}{}Saved a.cs", " ".repeat(60 - left.len() - 10)));
    assert_eq!(status.text.chars().count(), 60);
    let blue = Style { fg: Some(Color::Black), bg: Some(Color::Rgb(0x7a, 0xa2, 0xf7)), ..plain() };
    assert_eq!(status.style, blue);
}

#[test]
fn a_message_without_room_is_clipped() {
    let mut ed = open("é\nx");
    ed.modified = true;
    ed.status_is_error = true;
    ed.status_message = "Fehler: ß".to_string();
    let left = " a.cs [+]  Ln 1, Col 1  2 chars, 2 lines";
    let whole = format!("{left} Fehler: ß ");
    for width in 0..left.len() + 9 {
        let expected: String = whole.chars().take(width).collect();
        assert_eq!(draw_status(&ed, width).text, expected);
    }
    assert_eq!(draw_status(&ed, left.len() + 10).text, format!("{left} Fehler: ß"));
    let red = Style {
        fg: Some(Color::White),
        bg: Some(Color::Rgb(0x8b, 0x2f, 0x2f)),
        bold: true,
        ..plain()
    };
    assert_eq!(draw_status(&ed, 5).style, red);
}

#[test]
fn the_cursor_is_placed_behind_the_gutter() {
    let mut ed = open("abc\ndef");
    ed.cursor_row = 1;
    ed.cursor_col = 2;
    let inside = Area { x: 10, y: 20, width: 30, height: 5 };
    assert_eq!(place_cursor(inside, &ed), Some((16, 21)));
    assert_eq!(place_cursor(area(6, 5), &ed), None);
    assert_eq!(place_cursor(area(7, 5), &ed), Some((6, 1)));
    assert_eq!(place_cursor(area(7, 1), &ed), None);
    ed.scroll = 2;
    assert_eq!(place_cursor(inside, &ed), None);
}

#[test]
fn the_screen_follows_the_cursor() {
    let text: String = (1..=100).map(|n| format!("line {n}\n")).collect();
    let mut ed = open(&text);
    ed.cursor_row = 49;
    ed.cursor_col = 7;
    let highlighter = Highlighter::new();
    let screen = draw(area(8, 11), &mut ed, &highlighter);
    assert_eq!((ed.scroll, ed.col_scroll), (40, 4));
    assert_eq!(screen.text_area, area(8, 10));
    assert_eq!(screen.status_area, Area { x: 0, y: 10, width: 8, height: 1 });
    assert_eq!(screen.rows.len(), 10);
    assert_eq!(reading(&screen.rows[0]), " 41  41");
    assert_eq!(reading(&screen.rows[9]), " 50  50");
    assert_eq!(screen.cursor, Some((7, 9)));
    assert_eq!(screen.status.text, " a.cs  L");

    let again = draw(area(8, 11), &mut ed, &highlighter);
    assert_eq!(again.rows, screen.rows);
    assert_eq!(again.status, screen.status);
    assert_eq!(again.cursor, screen.cursor);
}

#[test]
fn tiny_screens_are_drawn_too() {
    let highlighter = Highlighter::new();
    for width in 0..7 {
        for height in 0..4 {
            let mut ed = open("abc\ndef");
            ed.cursor_row = 1;
            ed.cursor_col = 3;
            let screen = draw(area(width, height), &mut ed, &highlighter);
            assert_eq!(screen.rows.len(), screen.text_area.height as usize);
            assert_eq!(screen.cursor.is_some(), width > 4 && height > 0);
        }
    }
}
