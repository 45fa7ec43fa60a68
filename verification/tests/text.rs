use neodiff::error::Error;
use neodiff::text::split_lines;
use neodiff::timeout::timeout_from_millis_str;

#[test]
fn lines_are_cut_at_line_feeds() {
    assert_eq!(split_lines(""), vec![""]);
    assert_eq!(split_lines("a"), vec!["a"]);
    assert_eq!(split_lines("a\nb"), vec!["a", "b"]);
    assert_eq!(split_lines("a\n\nb\n"), vec!["a", "", "b", ""]);
    assert_eq!(split_lines("\u{e4}\n\u{1f600}\r\n"), vec!["\u{e4}", "\u{1f600}\r", ""]);
}

#[test]
fn lines_join_to_the_text() {
    let text = "{\"pc\":0}\n{\"pc\":1}\n\nnoise";
    assert_eq!(split_lines(text).join("\n"), text);
}

#[test]
fn timeouts_are_decimal_milliseconds() {
    assert_eq!(timeout_from_millis_str("1000").unwrap(), 1000);
    assert_eq!(timeout_from_millis_str("+7").unwrap(), 7);
    assert_eq!(timeout_from_millis_str("007").unwrap(), 7);
    assert_eq!(timeout_from_millis_str("0").unwrap(), 0);
    assert_eq!(timeout_from_millis_str("18446744073709551615").unwrap(), u64::MAX);
}

#[test]
fn other_timeouts_are_refused() {
    for text in ["", "+", "-1", "1s", " 1", "1 ", "0x10", "1.5", "18446744073709551616"] {
        match timeout_from_millis_str(text) {
            Err(Error::Parse(shown)) => assert_eq!(shown, text),
            other => panic!("{:?}", other),
        }
    }
}
