use nge::text::{parse_u8, read_lines, string_of, to_chars, u8_to_string};

#[test]
fn every_number_is_read_as_it_is_written() {
    for n in 0..=255u8 {
        let text = u8_to_string(n);
        assert_eq!(text, n.to_string());
        assert_eq!(parse_u8(&text), Some(n));
    }
}

#[test]
fn numerals_are_read_as_the_standard_library_reads_them() {
    for text in [
        "", "+", "-", "0", "+0", "-0", "00", "255", "256", "+255", "0255", "1e1", " 1", "1 ", "12a",
        "99999999999999999999999999", "000000000000000000000000012", "++1", "٣",
    ] {
        assert_eq!(parse_u8(text), text.parse::<u8>().ok(), "{:?}", text);
    }
}

#[test]
fn lines_are_the_pieces_between_line_feeds() {
    let as_strings = |text: &str| -> Vec<String> {
        read_lines(text).iter().map(|l| l.iter().collect()).collect()
    };
    assert_eq!(as_strings(""), vec![""]);
    assert_eq!(as_strings("a"), vec!["a"]);
    assert_eq!(as_strings("a\n"), vec!["a", ""]);
    assert_eq!(as_strings("a\n\nbc\r\nd"), vec!["a", "", "bc\r", "d"]);
    assert_eq!(as_strings("\n"), vec!["", ""]);
}

#[test]
fn characters_and_strings() {
    let chars = to_chars("héllo");
    assert_eq!(chars, vec!['h', 'é', 'l', 'l', 'o']);
    assert_eq!(string_of(&chars, 1, 4), "éll");
    assert_eq!(string_of(&chars, 2, 2), "");
}
