use unixbar::data::{Format, Span};
use unixbar::dzen2::Dzen2;
use unixbar::formatter::Formatter;
use unixbar::i3bar::I3Bar;
use unixbar::lemonbar::Lemonbar;

fn span(text: &str, fg: Option<&str>, bg: Option<&str>, action: Option<&str>) -> Span {
    Span {
        text: text.to_string(),
        fg: fg.map(|s| s.to_string()),
        bg: bg.map(|s| s.to_string()),
        action: action.map(|s| s.to_string()),
    }
}

#[test]
fn dzen2_plain_values_in_order() {
    let f = Dzen2;
    let vals = vec![
        Format::Str("a".to_string()),
        Format::Str("b".to_string()),
        Format::Str("c".to_string()),
    ];
    assert_eq!(f.format_all(&vals), "a | b | c");
}

#[test]
fn dzen2_empty_list_is_empty_line() {
    let f = Dzen2;
    let vals: Vec<Format> = vec![];
    assert_eq!(f.format_all(&vals), "");
}

#[test]
fn dzen2_escapes_caret() {
    let f = Dzen2;
    let vals = vec![Format::Str("a^fg(red)b".to_string())];
    assert_eq!(f.format_all(&vals), "a^^fg(red)b");
}

#[test]
fn dzen2_span_tags() {
    let f = Dzen2;
    let vals = vec![Format::Spans(vec![span("song", Some("#ff0000"), None, Some("next"))])];
    assert_eq!(f.format_all(&vals), "^ca(1,next)^fg(#ff0000)song^fg()^ca()");
}

#[test]
fn dzen2_no_header() {
    assert!(Dzen2.header().is_none());
}

#[test]
fn lemonbar_plain_values_in_order() {
    let f = Lemonbar;
    let vals = vec![Format::Str("cpu".to_string()), Format::Str("mem".to_string())];
    assert_eq!(f.format_all(&vals), "cpu mem");
}

#[test]
fn lemonbar_escapes_percent() {
    let f = Lemonbar;
    let vals = vec![Format::Str("50%".to_string())];
    assert_eq!(f.format_all(&vals), "50%%");
}

#[test]
fn lemonbar_span_tags() {
    let f = Lemonbar;
    let vals = vec![Format::Spans(vec![span("hi", Some("#fff"), Some("#000"), Some("tog"))])];
    assert_eq!(f.format_all(&vals), "%{A:tog:}%{B#000}%{F#fff}hi%{F-}%{B-}%{A}");
}

#[test]
fn i3bar_empty_list_is_empty_array() {
    let f = I3Bar;
    let vals: Vec<Format> = vec![];
    assert_eq!(f.format_all(&vals), "[]");
}

#[test]
fn i3bar_plain_value() {
    let f = I3Bar;
    let vals = vec![Format::Str("hello".to_string())];
    assert_eq!(f.format_all(&vals), "[{\"full_text\":\"hello\"}]");
}

#[test]
fn i3bar_two_values_two_records() {
    let f = I3Bar;
    let vals = vec![Format::Str("a".to_string()), Format::Str("b".to_string())];
    assert_eq!(f.format_all(&vals), "[{\"full_text\":\"a\"},{\"full_text\":\"b\"}]");
}

#[test]
fn i3bar_span_fields() {
    let f = I3Bar;
    let vals = vec![Format::Spans(vec![span("song", Some("#ff0000"), None, Some("next"))])];
    assert_eq!(
        f.format_all(&vals),
        "[{\"full_text\":\"song\",\"color\":\"#ff0000\",\"name\":\"next\"}]"
    );
}

#[test]
fn i3bar_escapes_quote_in_text() {
    let f = I3Bar;
    let vals = vec![Format::Str("He said \"hi\"".to_string())];
    assert_eq!(f.format_all(&vals), "[{\"full_text\":\"He said \\\"hi\\\"\"}]");
}

#[test]
fn i3bar_escapes_backslash_and_newline() {
    let f = I3Bar;
    let vals = vec![Format::Str("a\\b\nc".to_string())];
    assert_eq!(f.format_all(&vals), "[{\"full_text\":\"a\\\\b\\nc\"}]");
}

#[test]
fn i3bar_empty_span_list_stays_valid() {
    let f = I3Bar;
    let vals = vec![Format::Spans(vec![])];
    assert_eq!(f.format_all(&vals), "[{\"full_text\":\"\"}]");
}

#[test]
fn i3bar_header_announces_clicks() {
    assert_eq!(
        I3Bar.header().as_deref(),
        Some("{\"version\":1,\"click_events\":true}")
    );
}

#[test]
fn i3bar_parses_click_record() {
    let f = I3Bar;
    let r = f.parse_command("{\"name\": \"next\", \"button\": 1}");
    assert_eq!(r.as_deref(), Some("next"));
}

#[test]
fn i3bar_parses_click_with_stream_comma() {
    let f = I3Bar;
    let r = f.parse_command(",{\"button\":3,\"name\":\"prev\"}");
    assert_eq!(r.as_deref(), Some("prev"));
}

#[test]
fn i3bar_unescapes_name_value() {
    let f = I3Bar;
    let r = f.parse_command("{\"name\":\"a\\\"b\"}");
    assert_eq!(r.as_deref(), Some("a\"b"));
}

#[test]
fn i3bar_rejects_non_object_lines() {
    let f = I3Bar;
    assert!(f.parse_command("").is_none());
    assert!(f.parse_command("next").is_none());
    assert!(f.parse_command("[1,2]").is_none());
    assert!(f.parse_command("{\"button\":1}").is_none());
}

#[test]
fn raw_token_parse_trims() {
    let f = Lemonbar;
    assert_eq!(f.parse_command("next\n").as_deref(), Some("next"));
    assert_eq!(f.parse_command("  toggle  ").as_deref(), Some("toggle"));
    assert!(f.parse_command("\n").is_none());
    assert!(f.parse_command("").is_none());
}

#[test]
fn format_dup_is_identical() {
    let f = I3Bar;
    let v = Format::Spans(vec![span("x\"y", Some("#123456"), None, Some("act"))]);
    let copy = v.dup();
    assert_eq!(f.format_all(&vec![v]), f.format_all(&vec![copy]));
}
