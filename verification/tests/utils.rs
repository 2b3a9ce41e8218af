use tui_realm_stdlib::props::{
    Alignment, BorderType, Borders, Color, Props, Style, TextSpan, BOLD, SIDES_ALL, UNDERLINED,
};
use tui_realm_stdlib::utils::{
    calc_utf8_cursor_position, fill_lines, get_block, split_to_width, use_or_default_styles,
    wrap_spans, Piece, Span,
};

fn styled_props() -> Props {
    let mut props: Props = Props::default();
    props.text_props = Some(BOLD);
    props.foreground = Some(Color::Red);
    props.background = Some(Color::White);
    props
}

fn line_texts(lines: &[Vec<Span>]) -> Vec<String> {
    lines
        .iter()
        .map(|l| l.iter().map(|s| s.content.as_str()).collect::<Vec<_>>().join("|"))
        .collect()
}

#[test]
fn test_components_utils_wrap_spans() {
    let props = styled_props();
    // Prepare spans; let's start with two simple spans, which fits the line
    let spans: Vec<TextSpan> = vec![TextSpan::new("hello, "), TextSpan::new("world!")];
    let spans: Vec<&TextSpan> = spans.iter().collect();
    assert_eq!(wrap_spans(&spans, 64, &props).len(), 1);
    // Let's make a sentence, which would require two lines
    let spans: Vec<TextSpan> = vec![
        TextSpan::new("Hello, everybody, I'm Uncle Camel!"),
        TextSpan::new("How's it going today?"),
    ];
    let spans: Vec<&TextSpan> = spans.iter().collect();
    assert_eq!(wrap_spans(&spans, 32, &props).len(), 2);
    // Let's make a sentence, which requires 3 lines, but with only one span
    let spans: Vec<TextSpan> = vec![TextSpan::new(
        "Hello everybody! My name is Uncle Camel. How's it going today?",
    )];
    let spans: Vec<&TextSpan> = spans.iter().collect();
    // makes Hello everybody, my name is uncle, camel. how's it, goind today
    assert_eq!(wrap_spans(&spans, 16, &props).len(), 4);
    // Combine
    let spans: Vec<TextSpan> = vec![
        TextSpan::new("Lorem ipsum dolor sit amet, consectetur adipiscing elit."),
        TextSpan::new("Canem!"),
        TextSpan::new("In posuere sollicitudin vulputate"),
        TextSpan::new("Sed vitae rutrum quam."),
    ];
    let spans: Vec<&TextSpan> = spans.iter().collect();
    // "Lorem ipsum dolor sit amet,", "consectetur adipiscing elit. Canem!", "In posuere sollicitudin vulputate", "Sed vitae rutrum quam."
    assert_eq!(wrap_spans(&spans, 36, &props).len(), 4);
}

#[test]
fn test_components_utils_use_or_default_styles() {
    let props = styled_props();
    let span: TextSpan = TextSpan::new("test")
        .underlined()
        .fg(Color::Yellow)
        .bg(Color::Cyan);
    // Not-default
    let (fg, bg, modifiers) = use_or_default_styles(&props, &span);
    assert_eq!(fg, Color::Yellow);
    assert_eq!(bg, Color::Cyan);
    assert!(modifiers & UNDERLINED != 0);
    // Default
    let span: TextSpan = TextSpan::new("test");
    let (fg, bg, modifiers) = use_or_default_styles(&props, &span);
    assert_eq!(fg, Color::Red);
    assert_eq!(bg, Color::White);
    assert!(modifiers & BOLD != 0);
}

#[test]
fn test_components_utils_get_block() {
    let props = Borders::new()
        .sides(SIDES_ALL)
        .color(Color::Red)
        .modifiers(BorderType::Rounded);
    get_block(
        props,
        Some(("title".to_string(), Alignment::Center)),
        true,
        None,
    );
    get_block(props, None, false, None);
}

#[test]
fn test_components_utils_calc_utf8_cursor_position() {
    let chars: Vec<char> = vec!['v', 'e', 'e', 's', 'o'];
    // Entire
    assert_eq!(calc_utf8_cursor_position(chars.as_slice()), 5);
    assert_eq!(calc_utf8_cursor_position(&chars[0..3]), 3);
    // With special characters
    let chars: Vec<char> = vec!['я', ' ', 'х', 'о', 'ч', 'у', ' ', 'с', 'п', 'а', 'т', 'ь'];
    assert_eq!(calc_utf8_cursor_position(&chars[0..6]), 6);
    let chars: Vec<char> = vec!['H', 'i', '😄'];
    assert_eq!(calc_utf8_cursor_position(chars.as_slice()), 4);
    let chars: Vec<char> = vec!['我', '之', '😄'];
    assert_eq!(calc_utf8_cursor_position(chars.as_slice()), 6);
}

// -- further cases

#[test]
fn cursor_position_of_nothing_is_zero() {
    assert_eq!(calc_utf8_cursor_position(&[]), 0);
}

#[test]
fn get_block_picks_the_border_style() {
    let borders = Borders::new().color(Color::Green).modifiers(BorderType::Double);
    let focused = get_block(borders, Some(("t".to_string(), Alignment::Right)), true, None);
    assert_eq!(focused.border_style, Style::new().fg(Color::Green));
    assert_eq!(focused.border_type, BorderType::Double);
    assert_eq!(focused.borders, SIDES_ALL);
    assert_eq!(focused.title, "t");
    assert_eq!(focused.title_alignment, Alignment::Right);
    let inactive = Style::new().fg(Color::Gray);
    let unfocused = get_block(borders, None, false, Some(inactive));
    assert_eq!(unfocused.border_style, inactive);
    assert_eq!(unfocused.title, "");
    assert_eq!(unfocused.title_alignment, Alignment::Left);
    let plain = get_block(borders, None, false, None);
    assert_eq!(plain.border_style, Style::new().fg(Color::Reset).bg(Color::Reset));
}

#[test]
fn use_or_default_styles_without_props_keeps_defaults() {
    let props = Props::default();
    let span = TextSpan::new("x");
    assert_eq!(use_or_default_styles(&props, &span), (Color::Reset, Color::Reset, 0));
    let span = TextSpan::new("x").fg(Color::Indexed(3)).bold();
    assert_eq!(use_or_default_styles(&props, &span), (Color::Indexed(3), Color::Reset, BOLD));
}

#[test]
fn wrap_spans_keeps_fitting_spans_whole_on_one_line() {
    let props = styled_props();
    let spans: Vec<TextSpan> = vec![TextSpan::new("hello, "), TextSpan::new("world!").fg(Color::Blue)];
    let spans: Vec<&TextSpan> = spans.iter().collect();
    let lines = wrap_spans(&spans, 13, &props);
    assert_eq!(line_texts(&lines), vec!["hello, |world!"]);
    let style = Style::new().fg(Color::Red).bg(Color::White).add_modifier(BOLD);
    assert_eq!(lines[0][0].style, style);
    assert_eq!(lines[0][1].style, Style::new().fg(Color::Blue).bg(Color::White).add_modifier(BOLD));
    // one column less: the second span starts a new line
    let lines = wrap_spans(&spans, 12, &props);
    assert_eq!(line_texts(&lines), vec!["hello, ", "world!"]);
}

#[test]
fn wrap_spans_breaks_long_spans_and_keeps_the_words() {
    let props = Props::default();
    let spans: Vec<TextSpan> = vec![TextSpan::new("aaa bbb ccc")];
    let spans: Vec<&TextSpan> = spans.iter().collect();
    let lines = wrap_spans(&spans, 4, &props);
    assert_eq!(line_texts(&lines), vec!["aaa", "bbb", "ccc"]);
    let lines = wrap_spans(&spans, 7, &props);
    assert_eq!(line_texts(&lines), vec!["aaa bbb", "ccc"]);
}

#[test]
fn wrap_spans_of_nothing_is_no_line() {
    let props = Props::default();
    let lines = wrap_spans(&[], 10, &props);
    assert!(lines.is_empty());
}

fn piece(text: &str, width: usize) -> Piece {
    Piece { span: Span { content: text.to_string(), style: Style::new() }, width }
}

#[test]
fn fill_lines_is_greedy() {
    let pieces = vec![piece("ab", 2), piece("cde", 3), piece("f", 1), piece("ghij", 4)];
    let lines = fill_lines(&pieces, 5);
    assert_eq!(line_texts(&lines), vec!["ab|cde", "f|ghij"]);
    let lines = fill_lines(&pieces, 10);
    assert_eq!(line_texts(&lines), vec!["ab|cde|f|ghij"]);
    // a piece wider than the width gets a line of its own, after an empty one
    let pieces = vec![piece("wide", 9)];
    let lines = fill_lines(&pieces, 5);
    assert_eq!(lines.len(), 2);
    assert!(lines[0].is_empty());
    assert_eq!(line_texts(&lines[1..]), vec!["wide"]);
}

#[test]
fn cursor_position_adds_up_over_plain_text() {
    let a: Vec<char> = "abc".chars().collect();
    let b: Vec<char> = "я我😄".chars().collect();
    let ab: Vec<char> = a.iter().chain(b.iter()).cloned().collect();
    assert_eq!(calc_utf8_cursor_position(&b), 5);
    assert_eq!(
        calc_utf8_cursor_position(&ab),
        calc_utf8_cursor_position(&a) + calc_utf8_cursor_position(&b)
    );
    assert!(calc_utf8_cursor_position(&ab[0..4]) <= calc_utf8_cursor_position(&ab));
}

#[test]
fn wrap_spans_breaks_only_when_forced() {
    let props = Props::default();
    let spans: Vec<TextSpan> = vec![
        TextSpan::new("aaaa"),
        TextSpan::new("bb"),
        TextSpan::new("ccc"),
        TextSpan::new("d"),
    ];
    let spans: Vec<&TextSpan> = spans.iter().collect();
    let lines = wrap_spans(&spans, 6, &props);
    // each span fits: all stay whole and in order; "ccc" does not fit after "aaaabb"
    assert_eq!(line_texts(&lines), vec!["aaaa|bb", "ccc|d"]);
}

fn columns(text: &str) -> u16 {
    let chars: Vec<char> = text.chars().collect();
    calc_utf8_cursor_position(&chars)
}

#[test]
fn split_to_width_cuts_greedily() {
    assert_eq!(split_to_width("abcdef", 4), vec!["abcd", "ef"]);
    assert_eq!(split_to_width("abc", 4), vec!["abc"]);
    // a character wider than the width stands alone
    assert_eq!(split_to_width("我我", 1), vec!["我", "我"]);
    assert_eq!(split_to_width("我我我", 4), vec!["我我", "我"]);
}

#[test]
fn wrap_spans_cuts_lines_that_are_still_too_wide() {
    let props = Props::default();
    // textwrap does not count the escape sequence; the display width does
    let spans: Vec<TextSpan> = vec![TextSpan::new("\x1b[31mabcdefgh")];
    let spans: Vec<&TextSpan> = spans.iter().collect();
    let lines = wrap_spans(&spans, 10, &props);
    assert_eq!(line_texts(&lines), vec!["\x1b[31mabcde", "fgh"]);
}

#[test]
fn wrap_spans_lines_never_exceed_the_width() {
    let props = Props::default();
    let long_word: String = std::iter::repeat('x').take(59).collect();
    let texts = vec![
        format!("a {}", long_word),
        "Hello everybody! My name is Uncle Camel. How's it going today?".to_string(),
        "我之😄 я хочу спать, Lorem ipsum dolor sit amet".to_string(),
    ];
    for width in [3usize, 5, 16, 36, 60] {
        let spans: Vec<TextSpan> = texts.iter().map(|t| TextSpan::new(t)).collect();
        let spans: Vec<&TextSpan> = spans.iter().collect();
        for line in wrap_spans(&spans, width, &props) {
            assert!(!line.is_empty());
            let total: usize = line.iter().map(|s| columns(&s.content) as usize).sum();
            assert!(total <= width, "a line is wider than {}", width);
        }
    }
}
