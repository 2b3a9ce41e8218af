use tui_realm_stdlib::components::table::{
    Cmd, CmdResult, Direction, Position, Table, TableStates,
};
use tui_realm_stdlib::props::{Alignment, AttrValue, Borders, Color, Style, TextSpan, BOLD};

fn row(cols: &[&str]) -> Vec<TextSpan> {
    cols.iter().map(|c| TextSpan::new(c)).collect()
}

fn events_rows() -> Vec<Vec<TextSpan>> {
    vec![
        row(&["KeyCode::Down", "OnKey", "Move cursor down"]),
        row(&["KeyCode::Up", "OnKey", "Move cursor up"]),
        row(&["KeyCode::PageDown", "OnKey", "Move cursor down by 8"]),
        row(&["KeyCode::PageUp", "OnKey", "ove cursor up by 8"]),
        row(&["KeyCode::End", "OnKey", "Move cursor to last item"]),
        row(&["KeyCode::Home", "OnKey", "Move cursor to first item"]),
        row(&["KeyCode::Char(_)", "OnKey", "Return pressed key"]),
    ]
}

#[test]
fn table_states() {
    let mut states = TableStates::default();
    assert_eq!(states.list_index, 0);
    assert_eq!(states.list_len, 0);
    states.set_list_len(5);
    assert_eq!(states.list_index, 0);
    assert_eq!(states.list_len, 5);
    // Incr
    states.incr_list_index(true);
    assert_eq!(states.list_index, 1);
    states.list_index = 4;
    states.incr_list_index(false);
    assert_eq!(states.list_index, 4);
    states.incr_list_index(true);
    assert_eq!(states.list_index, 0);
    // Decr
    states.decr_list_index(false);
    assert_eq!(states.list_index, 0);
    states.decr_list_index(true);
    assert_eq!(states.list_index, 4);
    states.decr_list_index(true);
    assert_eq!(states.list_index, 3);
    // Begin
    states.list_index_at_first();
    assert_eq!(states.list_index, 0);
    states.list_index_at_last();
    assert_eq!(states.list_index, 4);
    // Fix
    states.set_list_len(3);
    states.fix_list_index();
    assert_eq!(states.list_index, 2);
}

#[test]
fn test_component_table_scrolling() {
    let mut rows = events_rows();
    rows[6].push(TextSpan::new("4th mysterious columns"));
    // Make component
    let mut component = Table::default()
        .foreground(Color::Red)
        .background(Color::Blue)
        .highlighted_color(Color::Yellow)
        .highlighted_str("🚀")
        .modifiers(BOLD)
        .scroll(true)
        .step(4)
        .borders(Borders::new())
        .title("events", Alignment::Center)
        .column_spacing(4)
        .widths(&[25, 25, 25, 25])
        .row_height(3)
        .headers(&["Event", "Message", "Behaviour", "???"])
        .table(rows);
    assert_eq!(component.states.list_len, 7);
    assert_eq!(component.states.list_index, 0);
    // Own funcs
    assert_eq!(component.layout().len(), 4);
    // Increment list index
    component.states.list_index += 1;
    assert_eq!(component.states.list_index, 1);
    // Handle inputs
    assert_eq!(
        component.perform(Cmd::Move(Direction::Down)),
        CmdResult::Changed(Some(2))
    );
    // Index should be incremented
    assert_eq!(component.states.list_index, 2);
    // Index should be decremented
    assert_eq!(
        component.perform(Cmd::Move(Direction::Up)),
        CmdResult::Changed(Some(1))
    );
    assert_eq!(component.states.list_index, 1);
    assert_eq!(
        component.perform(Cmd::Scroll(Direction::Down)),
        CmdResult::Changed(Some(5))
    );
    assert_eq!(component.states.list_index, 5);
    assert_eq!(
        component.perform(Cmd::Scroll(Direction::Down)),
        CmdResult::Changed(Some(6))
    );
    assert_eq!(component.states.list_index, 6);
    assert_eq!(
        component.perform(Cmd::Scroll(Direction::Up)),
        CmdResult::Changed(Some(2))
    );
    assert_eq!(component.states.list_index, 2);
    assert_eq!(
        component.perform(Cmd::Scroll(Direction::Up)),
        CmdResult::Changed(Some(0))
    );
    assert_eq!(component.states.list_index, 0);
    // End
    assert_eq!(
        component.perform(Cmd::GoTo(Position::End)),
        CmdResult::Changed(Some(6))
    );
    assert_eq!(component.states.list_index, 6);
    // Home
    assert_eq!(
        component.perform(Cmd::GoTo(Position::Begin)),
        CmdResult::Changed(Some(0))
    );
    assert_eq!(component.states.list_index, 0);
    // Update
    component.attr(AttrValue::Content(vec![row(&["name", "age", "birthdate"])]));
    assert_eq!(component.states.list_len, 1);
    assert_eq!(component.states.list_index, 0);
    // Get value
    assert_eq!(component.state(), Some(0));
}

#[test]
fn test_component_table_with_empty_rows_and_no_width_set() {
    // Make component
    let component = Table::default().table(vec![vec![]]);

    assert_eq!(component.states.list_len, 1);
    assert_eq!(component.states.list_index, 0);
    // calculating layout would fail if no widths and using an empty row
    assert_eq!(component.layout().len(), 0);
}

#[test]
fn test_components_table() {
    // Make component
    let component = Table::default()
        .foreground(Color::Red)
        .background(Color::Blue)
        .highlighted_color(Color::Yellow)
        .highlighted_str("🚀")
        .modifiers(BOLD)
        .borders(Borders::new())
        .title("events", Alignment::Center)
        .column_spacing(4)
        .widths(&[33, 33, 33])
        .row_height(3)
        .headers(&["Event", "Message", "Behaviour"])
        .table(events_rows());
    // Get value (not scrollable)
    assert_eq!(component.state(), None);
}

#[test]
fn should_init_list_value() {
    let mut component = Table::default()
        .foreground(Color::Red)
        .background(Color::Blue)
        .highlighted_color(Color::Yellow)
        .highlighted_str("🚀")
        .modifiers(BOLD)
        .borders(Borders::new())
        .title("events", Alignment::Center)
        .table(events_rows())
        .scroll(true)
        .selected_line(2);
    assert_eq!(component.states.list_index, 2);
    // Index out of bounds
    component.attr(AttrValue::Value(50));
    assert_eq!(component.states.list_index, 6);
}

// -- further cases

#[test]
fn table_states_empty_list() {
    let mut states = TableStates::default();
    states.incr_list_index(true);
    assert_eq!(states.list_index, 0);
    states.decr_list_index(true);
    assert_eq!(states.list_index, 0);
    states.list_index_at_last();
    assert_eq!(states.list_index, 0);
    states.list_index = 3;
    states.fix_list_index();
    assert_eq!(states.list_index, 0);
    assert_eq!(states.calc_max_step_ahead(8), 0);
    assert_eq!(states.calc_max_step_behind(8), 0);
}

#[test]
fn table_states_max_steps() {
    let mut states = TableStates::default();
    states.set_list_len(10);
    states.list_index = 3;
    assert_eq!(states.calc_max_step_ahead(4), 4);
    assert_eq!(states.calc_max_step_ahead(20), 6);
    assert_eq!(states.calc_max_step_behind(2), 2);
    assert_eq!(states.calc_max_step_behind(5), 3);
}

#[test]
fn table_states_down_then_up_cancel() {
    let mut states = TableStates::default();
    states.set_list_len(4);
    states.list_index = 1;
    states.incr_list_index(false);
    states.decr_list_index(false);
    assert_eq!(states.list_index, 1);
    states.decr_list_index(false);
    states.incr_list_index(false);
    assert_eq!(states.list_index, 1);
}

#[test]
fn table_rewind_wraps_around() {
    let mut component = Table::default()
        .scroll(true)
        .rewind(true)
        .table(events_rows());
    assert_eq!(
        component.perform(Cmd::Move(Direction::Up)),
        CmdResult::Changed(Some(6))
    );
    assert_eq!(
        component.perform(Cmd::Move(Direction::Down)),
        CmdResult::Changed(Some(0))
    );
}

#[test]
fn table_without_rewind_stays_at_ends() {
    let mut component = Table::default().scroll(true).table(events_rows());
    assert_eq!(component.perform(Cmd::Move(Direction::Up)), CmdResult::Unchanged);
    assert_eq!(component.perform(Cmd::GoTo(Position::Begin)), CmdResult::Unchanged);
    component.perform(Cmd::GoTo(Position::End));
    assert_eq!(component.perform(Cmd::Move(Direction::Down)), CmdResult::Unchanged);
    assert_eq!(component.perform(Cmd::Scroll(Direction::Down)), CmdResult::Unchanged);
    assert_eq!(component.perform(Cmd::Submit), CmdResult::Unchanged);
    assert_eq!(component.states.list_index, 6);
}

#[test]
fn table_not_scrollable_reports_no_state() {
    let mut component = Table::default().table(events_rows());
    assert_eq!(component.perform(Cmd::Move(Direction::Down)), CmdResult::Changed(None));
    assert_eq!(component.states.list_index, 1);
    // the selected line is ignored when the table does not scroll
    component.set_selected_line(5);
    assert_eq!(component.states.list_index, 1);
}

#[test]
fn table_default_scroll_step_is_eight() {
    let rows: Vec<Vec<TextSpan>> = (0..20).map(|_| row(&["x"])).collect();
    let mut component = Table::default().scroll(true).table(rows);
    assert_eq!(
        component.perform(Cmd::Scroll(Direction::Down)),
        CmdResult::Changed(Some(8))
    );
    assert_eq!(
        component.perform(Cmd::Scroll(Direction::Up)),
        CmdResult::Changed(Some(0))
    );
}

#[test]
fn table_layout_shares_width_equally() {
    let component = Table::default().table(vec![row(&["a", "b", "c"]), row(&["d"])]);
    assert_eq!(component.layout(), vec![33, 33, 33]);
    let component = Table::default();
    assert_eq!(component.layout(), vec![100]);
    let component = Table::default().table(vec![]);
    assert_eq!(component.layout(), vec![100]);
    let component = Table::default().widths(&[10, 90]);
    assert_eq!(component.layout(), vec![10, 90]);
    let seven: Vec<Vec<TextSpan>> = vec![row(&["a", "b", "c", "d", "e", "f", "g"])];
    let component = Table::default().table(seven);
    let layout = component.layout();
    assert_eq!(layout, vec![14; 7]);
    assert!(layout.iter().map(|w| *w as u32).sum::<u32>() <= 100);
}

#[test]
fn table_content_update_keeps_selection_in_bounds() {
    let mut component = Table::default().scroll(true).table(events_rows());
    component.perform(Cmd::GoTo(Position::End));
    assert_eq!(component.states.list_index, 6);
    component.set_content(vec![row(&["a"]), row(&["b"])]);
    assert_eq!(component.states.list_index, 1);
    component.set_content(vec![]);
    assert_eq!(component.states.list_len, 0);
    assert_eq!(component.states.list_index, 0);
}

#[test]
fn table_builders_set_attributes() {
    let component = Table::default()
        .inactive(Style::new().fg(Color::Gray))
        .title("events", Alignment::Right)
        .headers(&["A", "B"])
        .row_height(2)
        .column_spacing(1)
        .step(3);
    let props = &component.props;
    assert_eq!(props.focus_style, Some(Style::new().fg(Color::Gray)));
    assert_eq!(props.title.as_ref().map(|t| (t.0.as_str(), t.1)), Some(("events", Alignment::Right)));
    assert_eq!(props.headers, Some(vec!["A".to_string(), "B".to_string()]));
    assert_eq!(props.row_height, Some(2));
    assert_eq!(props.column_spacing, Some(1));
    assert_eq!(props.scroll_step, Some(3));
    assert_eq!(props.foreground, None);
}

#[test]
fn table_render_view_describes_the_drawing() {
    let mut rows = vec![row(&["a", "b"]), row(&["c"])];
    rows[0][1] = TextSpan::new("b").fg(Color::Green);
    let component = Table::default()
        .foreground(Color::Red)
        .background(Color::Blue)
        .modifiers(BOLD)
        .highlighted_color(Color::Yellow)
        .highlighted_str(">")
        .headers(&["H1", "H2"])
        .row_height(2)
        .scroll(true)
        .table(rows);
    let view = component.render_view().unwrap();
    assert_eq!(view.rows.len(), 2);
    assert_eq!(view.rows[0][0].content, "a");
    assert_eq!(view.rows[0][0].style, Style::new().fg(Color::Red).bg(Color::Blue).add_modifier(BOLD));
    assert_eq!(view.rows[0][1].style, Style::new().fg(Color::Green).bg(Color::Blue).add_modifier(BOLD));
    assert_eq!(view.row_height, 2);
    assert_eq!(view.widths, vec![50, 50]);
    assert_eq!(view.highlight_style, Some(Style::new().fg(Color::Yellow).add_modifier(BOLD)));
    assert_eq!(view.highlight_symbol.as_deref(), Some(">"));
    let (headers, header_style) = view.header.unwrap();
    assert_eq!(headers, vec!["H1".to_string(), "H2".to_string()]);
    assert_eq!(header_style, Style::new().fg(Color::Red).bg(Color::Blue).add_modifier(BOLD));
    assert_eq!(view.selected, Some(0));
    assert_eq!(view.block.title, "");
    assert_eq!(view.block.title_alignment, Alignment::Center);
    // not focused, no inactive style: default colours on the borders
    assert_eq!(view.block.border_style, Style::new().fg(Color::Reset).bg(Color::Reset));
}

#[test]
fn table_render_view_when_focused_or_hidden() {
    let mut component = Table::default()
        .modifiers(BOLD)
        .highlighted_color(Color::Yellow)
        .borders(Borders::new().color(Color::Magenta));
    component.props.focus = Some(true);
    let view = component.render_view().unwrap();
    assert_eq!(
        view.highlight_style,
        Some(Style::new().fg(Color::Yellow).add_modifier(BOLD | tui_realm_stdlib::props::REVERSED))
    );
    assert_eq!(view.block.border_style, Style::new().fg(Color::Magenta));
    assert!(view.header.is_none());
    assert!(view.rows.is_empty());
    assert_eq!(view.selected, None);
    component.props.display = Some(false);
    assert!(component.render_view().is_none());
}

#[test]
fn table_attr_sets_one_attribute() {
    let mut component = Table::default().scroll(true).table(events_rows());
    component.states.list_index = 3;
    component.attr(AttrValue::Focus(true));
    component.attr(AttrValue::Display(true));
    component.attr(AttrValue::Foreground(Color::Cyan));
    assert_eq!(component.states.list_index, 3);
    assert_eq!(component.states.list_len, 7);
    assert_eq!(component.props.focus, Some(true));
    assert_eq!(component.props.display, Some(true));
    assert_eq!(component.props.foreground, Some(Color::Cyan));
    assert_eq!(component.props.background, None);
    component.attr(AttrValue::Value(50));
    assert_eq!(component.states.list_index, 6);
    component.attr(AttrValue::Content(vec![row(&["a"])]));
    assert_eq!(component.states.list_len, 1);
    assert_eq!(component.states.list_index, 0);
}
