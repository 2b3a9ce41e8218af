use tui_realm_stdlib::components::progress_bar::ProgressBar;
use tui_realm_stdlib::props::{
    AttrValue, Alignment, BorderType, Borders, Color, Props, Style, TextSpan, BOLD, CROSSED_OUT, ITALIC,
    RAPID_BLINK, REVERSED, SIDES_ALL, SIDE_TOP, SLOW_BLINK, UNDERLINED,
};

#[test]
fn text_span_modifiers() {
    let span = TextSpan::new("Error")
        .bg(Color::Red)
        .fg(Color::Black)
        .bold()
        .italic()
        .underlined()
        .rapid_blink()
        .rapid_blink()
        .slow_blink()
        .strikethrough()
        .reversed();
    assert_eq!(span.content, "Error");
    assert_eq!(span.fg, Color::Black);
    assert_eq!(span.bg, Color::Red);
    for m in [BOLD, ITALIC, UNDERLINED, SLOW_BLINK, RAPID_BLINK, REVERSED, CROSSED_OUT] {
        assert!(span.modifiers & m != 0);
    }
    let span = TextSpan::new("plain");
    assert_eq!(span.modifiers, 0);
    assert_eq!(span.fg, Color::Reset);
}

#[test]
fn borders_and_styles() {
    let b = Borders::new();
    assert_eq!(b.sides, SIDES_ALL);
    assert_eq!(b.modifiers, BorderType::Plain);
    assert_eq!(b.color, Color::Reset);
    let b = b.sides(SIDE_TOP).modifiers(BorderType::Double).color(Color::Yellow);
    assert_eq!(b.style().fg, Some(Color::Yellow));
    assert_eq!(b.style().bg, None);
    let s = Style::new().add_modifier(BOLD);
    assert_eq!(s.add_modifier, BOLD);
    assert_eq!(s.sub_modifier, 0);
}

#[test]
fn progress_bar_builders() {
    let bar = ProgressBar::default()
        .background(Color::Red)
        .foreground(Color::White)
        .title("Downloading file...", Alignment::Center)
        .label("60% - ETA 00:20")
        .modifiers(BOLD)
        .borders(Borders::new());
    assert_eq!(bar.props.background, Some(Color::Red));
    assert_eq!(bar.props.foreground, Some(Color::White));
    assert_eq!(bar.props.label.as_deref(), Some("60% - ETA 00:20"));
    assert_eq!(bar.props.text_props, Some(BOLD));
    assert_eq!(bar.props.borders, Some(Borders::new()));
    let (title, alignment) = bar.props.title.clone().unwrap();
    assert_eq!(title, "Downloading file...");
    assert_eq!(alignment, Alignment::Center);
    assert!(Props::default().label.is_none());
}

#[test]
fn progress_bar_render_view() {
    let bar = ProgressBar::default()
        .foreground(Color::White)
        .label("60% - ETA 00:20")
        .title("Downloading file...", Alignment::Center);
    let view = bar.render_view().unwrap();
    assert_eq!(view.label, "60% - ETA 00:20");
    assert_eq!(view.style, Style::new().fg(Color::White).bg(Color::Reset));
    assert_eq!(view.block.title, "Downloading file...");
    assert_eq!(view.block.title_alignment, Alignment::Center);
    assert_eq!(view.block.border_style, Style::new().fg(Color::Reset));
    let plain = ProgressBar::default().render_view().unwrap();
    assert_eq!(plain.label, "");
    assert_eq!(plain.block.title_alignment, Alignment::Left);
    let mut hidden = ProgressBar::default();
    hidden.props.display = Some(false);
    assert!(hidden.render_view().is_none());
}

#[test]
fn test_components_progress_bar() {
    // the progress ratio (a float) is kept by the terminal component
    let component = ProgressBar::default()
        .background(Color::Red)
        .foreground(Color::White)
        .title("Downloading file...", Alignment::Center)
        .label("60% - ETA 00:20")
        .borders(Borders::new());
    // Get value
    assert_eq!(component.state(), None);
}

#[test]
fn props_set_changes_one_attribute() {
    let mut props = Props::default();
    props.set(AttrValue::Foreground(Color::Red));
    props.set(AttrValue::Display(false));
    props.set(AttrValue::Label("x".to_string()));
    assert_eq!(props.foreground, Some(Color::Red));
    assert_eq!(props.display, Some(false));
    assert_eq!(props.label.as_deref(), Some("x"));
    assert_eq!(props.background, None);
    assert_eq!(props.focus, None);
    let mut bar = ProgressBar::default();
    bar.attr(AttrValue::Focus(true));
    assert_eq!(bar.props.focus, Some(true));
    assert_eq!(bar.props.display, None);
}
