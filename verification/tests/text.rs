use pis_code::file_io::{load_or_create, save};
use pis_code::text::{
    clip, decimal_of, hexadecimal_of, insert_text, is_white_space, lines_of, parse_number,
    repeat_char, trim,
};

fn strings(lines: &[&str]) -> Vec<String> {
    lines.iter().map(|l| l.to_string()).collect()
}

#[test]
fn white_space_is_unicode_white_space() {
    for n in 0..=0x10FFFFu32 {
        if let Some(c) = char::from_u32(n) {
            assert_eq!(is_white_space(c), c.is_whitespace(), "{n:#x}");
        }
    }
}

#[test]
fn trim_takes_white_space_off_both_ends() {
    for s in ["", " ", "a", "  a b\t", "\u{3000}x\u{2028}", "\r\n", "…  "] {
        assert_eq!(trim(s), s.trim());
    }
}

#[test]
fn lines_end_in_newline_or_carriage_return_and_newline() {
    for s in [
        "", "\n", "a", "a\n", "a\r\n", "a\r", "a\rb", "\r\n\r\n", "a\n\nb", "a\r\r\n", "é\nß\n\n", "\r",
    ] {
        let expected: Vec<String> = s.lines().map(|l| l.to_string()).collect();
        assert_eq!(lines_of(s), expected, "{s:?}");
    }
}

#[test]
fn numbers_are_written_in_base_ten_and_sixteen() {
    for n in [0u128, 7, 10, 99, 100, 65535, u64::MAX as u128, u128::MAX] {
        assert_eq!(decimal_of(n), n.to_string());
    }
    for n in [0u64, 9, 10, 15, 16, 0xdead_beef, u64::MAX] {
        assert_eq!(hexadecimal_of(n), format!("{n:x}"));
    }
}

#[test]
fn numbers_are_read_as_far_as_they_fit() {
    let max = usize::MAX.to_string();
    let above = (usize::MAX as u128 + 1).to_string();
    for s in [
        "0", "00012", "+7", "+", "-1", "", " 1", "1 ", "12a", "++1", "٣", "1_000", max.as_str(),
        above.as_str(), "99999999999999999999999999",
    ] {
        assert_eq!(parse_number(s), s.parse::<usize>().ok(), "{s:?}");
    }
}

#[test]
fn written_numbers_are_read_back() {
    for n in [0usize, 1, 9, 10, 12345, usize::MAX] {
        assert_eq!(parse_number(&decimal_of(n as u128)), Some(n));
    }
}

#[test]
fn strings_are_handled_by_character() {
    assert_eq!(insert_text("aé…z", 2, "ß"), "aéß…z");
    assert_eq!(insert_text("", 0, "ß"), "ß");
    assert_eq!(clip("aé…z", 3), "aé…");
    assert_eq!(clip("aé", 3), "aé");
    assert_eq!(clip("aé", 0), "");
    assert_eq!(repeat_char('…', 3), "………");
    assert_eq!(repeat_char('…', 0), "");
}

#[test]
fn missing_and_empty_files_give_one_empty_line() {
    assert_eq!(load_or_create(None), strings(&[""]));
    assert_eq!(load_or_create(Some("")), strings(&[""]));
    assert_eq!(load_or_create(Some("\n")), strings(&[""]));
}

#[test]
fn files_are_loaded_line_by_line() {
    assert_eq!(load_or_create(Some("a\r\n\nb")), strings(&["a", "", "b"]));
    assert_eq!(load_or_create(Some("a\nb\n")), strings(&["a", "b"]));
}

#[test]
fn saved_contents_end_in_a_newline() {
    assert_eq!(save(&strings(&[""])), "\n");
    assert_eq!(save(&strings(&["a", "", "ß"])), "a\n\nß\n");
    assert_eq!(save(&Vec::new()), "\n");
}

#[test]
fn saved_buffers_are_read_back() {
    for lines in [strings(&[""]), strings(&["a"]), strings(&["", ""]), strings(&["a\tb", "…", "x\ry"])]
    {
        assert_eq!(load_or_create(Some(&save(&lines))), lines);
    }
}

#[test]
fn a_carriage_return_at_a_line_end_is_not_read_back() {
    assert_eq!(load_or_create(Some(&save(&strings(&["a\r"])))), strings(&["a"]));
}

#[test]
fn opening_and_saving_keeps_a_file_with_plain_newlines() {
    for contents in ["\n", "a\n", "a\n\n\nb\n", "using System;\n\nclass C {\n}\n"] {
        assert_eq!(save(&load_or_create(Some(contents))), contents);
    }
}
