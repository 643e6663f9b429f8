use profiler_render::info_text::{info_line, info_lines, place_word, shorten, Pen, TextArea};
use profiler_render::template::{Cell, Primitive};
use profiler_render::{parse_info_text_spans, split_keeping_spaces, utf8_char_len};

fn info_cell(title: &str, icon: Option<&str>, text: Option<&str>) -> Cell {
    Cell {
        primitive: Primitive::InfoText,
        title: title.to_string(),
        icon: icon.map(|s| s.to_string()),
        text: text.map(|s| s.to_string()),
        visible: true,
        ..Default::default()
    }
}

fn spans(parts: &[(&str, bool)]) -> Vec<(String, bool)> {
    parts.iter().map(|(s, b)| (s.to_string(), *b)).collect()
}

#[test]
fn bold_spans_split_on_double_star() {
    let spans = parse_info_text_spans("This is **bold** text");
    assert_eq!(
        spans,
        vec![
            ("This is ".to_string(), false),
            ("bold".to_string(), true),
            (" text".to_string(), false),
        ],
    );
    let spans = parse_info_text_spans("**hello** world **again**");
    assert_eq!(
        spans,
        vec![
            ("hello".to_string(), true),
            (" world ".to_string(), false),
            ("again".to_string(), true),
        ],
    );
}

#[test]
fn unbalanced_stars_are_literal() {
    assert_eq!(parse_info_text_spans("a **b"), spans(&[("a **b", false)]));
    assert_eq!(
        parse_info_text_spans("**a** b ** c"),
        spans(&[("a", true), (" b ** c", false)]),
    );
    assert_eq!(parse_info_text_spans("2 * 3"), spans(&[("2 * 3", false)]));
}

#[test]
fn bullet_lines_are_detectable_via_dash_space_prefix() {
    fn render_prefix(line: &str) -> &'static str {
        if info_line(line)[0].0.starts_with("• ") {
            "• "
        } else {
            ""
        }
    }
    assert_eq!(render_prefix("- first item"), "• ");
    assert_eq!(render_prefix("- another"), "• ");
    assert_eq!(render_prefix("not a bullet"), "");
    assert_eq!(render_prefix(""), "");
}

#[test]
fn empty_text_renders_title_only_via_no_body_spans() {
    let cell = info_cell("Just a title", None, None);
    assert!(cell.text.is_none());
    let spans = parse_info_text_spans("");
    assert_eq!(spans.len(), 1);
    assert_eq!(spans[0], (String::new(), false));
}

#[test]
fn bodies_are_parsed_line_by_line() {
    let cell = info_cell("Welcome", Some("👋"), Some("Hi **you**\n\n- Drag"));
    let body = cell.text.as_deref().unwrap();
    assert!(body.contains("**you**"));
    let lines = info_lines(body);
    assert_eq!(lines.len(), 3);
    assert_eq!(lines[0], spans(&[("Hi ", false), ("you", true)]));
    assert_eq!(lines[1], spans(&[("", false)]));
    assert_eq!(lines[2].iter().map(|s| s.0.as_str()).collect::<String>(), "• Drag");
}

#[test]
fn words_keep_their_spaces() {
    assert_eq!(split_keeping_spaces("a bc  d"), vec!["a", " ", "bc", "  ", "d"]);
    assert_eq!(split_keeping_spaces("x "), vec!["x", " "]);
    assert!(split_keeping_spaces("").is_empty());
}

#[test]
fn words_wrap_and_stop_at_the_bottom() {
    let area = TextArea { left: 10, width: 100, bottom: 60, line_height: 20, line_gap: 2 };
    let pen = Pen { x: 10, y: 0 };
    assert_eq!(place_word(pen, 60, area), Some(Pen { x: 10, y: 0 }));
    let next = Pen { x: 70, y: 0 };
    assert_eq!(place_word(next, 60, area), Some(Pen { x: 10, y: 22 }));
    let low = Pen { x: 70, y: 30 };
    assert_eq!(place_word(low, 60, area), None);
    assert_eq!(place_word(pen, 500, area), Some(pen));
    let edge = Pen { x: i64::MAX, y: i64::MAX };
    assert_eq!(place_word(edge, i64::MAX, area), None);
}

#[test]
fn long_texts_are_cut() {
    assert_eq!(shorten("abcdef", 6), "abcdef");
    assert_eq!(shorten("abcdefg", 6), "abcde…");
    assert_eq!(shorten("äöüßé", 4), "äöü…");
    assert_eq!(shorten("abcdef", 3), "abcdef");
}

#[test]
fn first_bytes_tell_the_length() {
    assert_eq!(utf8_char_len(b'a'), 1);
    assert_eq!(utf8_char_len("é".as_bytes()[0]), 2);
    assert_eq!(utf8_char_len("€".as_bytes()[0]), 3);
    assert_eq!(utf8_char_len("👋".as_bytes()[0]), 4);
}
