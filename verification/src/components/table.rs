//! ## Table
//!
//! `Table` represents a read-only textual table component which can be
//! scrolled through arrows or stay inactive.

use vstd::prelude::*;
use vstd::string::StringExecFns;

use crate::props::{with_attr, AttrValue};
use crate::props::{Alignment, BorderType, Borders, Color, Props, Style, TextSpan, REVERSED, SIDES_ALL};
use crate::utils::{
    block_border_style, get_block, lines_view, span_style, use_or_default_styles, Block, Span,
};

verus! {

/// Scrolling state of a table: the selected row and the number of rows.
#[derive(Debug)]
pub struct TableStates {
    /// Index of the selected row.
    pub list_index: usize,
    /// Number of rows.
    pub list_len: usize,
}

/// The selected row of a well-placed cursor: inside the list, or at zero
/// when the list is empty.
pub open spec fn index_in_bounds(index: int, len: int) -> bool {
    if len == 0 {
        index == 0
    } else {
        0 <= index < len
    }
}

/// Index after moving one row forward.
pub open spec fn next_index(index: int, len: int, rewind: bool) -> int {
    if index + 1 < len {
        index + 1
    } else if rewind {
        0
    } else {
        index
    }
}

/// Index after moving one row backward.
pub open spec fn prev_index(index: int, len: int, rewind: bool) -> int {
    if index > 0 {
        index - 1
    } else if rewind && len > 0 {
        len - 1
    } else {
        index
    }
}

/// Index kept where possible, moved onto the last row otherwise.
pub open spec fn fixed_index(index: int, len: int) -> int {
    if index >= len && len > 0 {
        len - 1
    } else if len == 0 {
        0
    } else {
        index
    }
}

/// Index of the last row (zero for an empty list).
pub open spec fn last_index(len: int) -> int {
    if len > 0 {
        len - 1
    } else {
        0
    }
}

/// Number of rows that can be skipped forward, at most `max`.
pub open spec fn max_step_ahead(index: int, len: int, max: int) -> int {
    let remaining = if len == 0 {
        0
    } else {
        len - 1 - index
    };
    if remaining > max {
        max
    } else {
        remaining
    }
}

/// Number of rows that can be skipped backward, at most `max`.
pub open spec fn max_step_behind(index: int, max: int) -> int {
    if index > max {
        max
    } else {
        index
    }
}

impl TableStates {
    /// The cursor stands inside the list (or at zero in an empty list).
    pub open spec fn in_bounds(&self) -> bool {
        index_in_bounds(self.list_index as int, self.list_len as int)
    }

    /// ### set_list_len
    ///
    /// Set list length
    pub fn set_list_len(&mut self, len: usize)
        ensures
            final(self).list_len == len,
            final(self).list_index == old(self).list_index,
    {
        self.list_len = len;
    }

    /// ### incr_list_index
    ///
    /// Increment list index
    pub fn incr_list_index(&mut self, rewind: bool)
        ensures
            final(self).list_len == old(self).list_len,
            final(self).list_index == next_index(
                old(self).list_index as int,
                old(self).list_len as int,
                rewind,
            ),
    {
        // Check if index is at last element
        if self.list_len > 0 && self.list_index < self.list_len - 1 {
            self.list_index += 1;
        } else if rewind {
            self.list_index = 0;
        }
    }

    /// ### decr_list_index
    ///
    /// Decrement list index
    pub fn decr_list_index(&mut self, rewind: bool)
        ensures
            final(self).list_len == old(self).list_len,
            final(self).list_index == prev_index(
                old(self).list_index as int,
                old(self).list_len as int,
                rewind,
            ),
    {
        // Check if index is bigger than 0
        if self.list_index > 0 {
            self.list_index -= 1;
        } else if rewind && self.list_len > 0 {
            self.list_index = self.list_len - 1;
        }
    }

    /// ### fix_list_index
    ///
    /// Keep index if possible, otherwise set to length - 1
    pub fn fix_list_index(&mut self)
        ensures
            final(self).list_len == old(self).list_len,
            final(self).list_index == fixed_index(
                old(self).list_index as int,
                old(self).list_len as int,
            ),
            final(self).in_bounds(),
    {
        if self.list_index >= self.list_len && self.list_len > 0 {
            self.list_index = self.list_len - 1;
        } else if self.list_len == 0 {
            self.list_index = 0;
        }
    }

    /// ### list_index_at_first
    ///
    /// Set list index to the first item in the list
    pub fn list_index_at_first(&mut self)
        ensures
            final(self).list_len == old(self).list_len,
            final(self).list_index == 0,
    {
        self.list_index = 0;
    }

    /// ### list_index_at_last
    ///
    /// Set list index at the last item of the list
    pub fn list_index_at_last(&mut self)
        ensures
            final(self).list_len == old(self).list_len,
            final(self).list_index == last_index(old(self).list_len as int),
    {
        if self.list_len > 0 {
            self.list_index = self.list_len - 1;
        } else {
            self.list_index = 0;
        }
    }

    /// ### calc_max_step_ahead
    ///
    /// Calculate the max step ahead to scroll list
    pub fn calc_max_step_ahead(&self, max: usize) -> (step: usize)
        requires
            self.list_len == 0 || self.list_index < self.list_len,
        ensures
            step == max_step_ahead(self.list_index as int, self.list_len as int, max as int),
    {
        let remaining: usize = match self.list_len {
            0 => 0,
            len => len - 1 - self.list_index,
        };
        if remaining > max {
            max
        } else {
            remaining
        }
    }

    /// ### calc_max_step_behind
    ///
    /// Calculate the max step behind to scroll list
    pub fn calc_max_step_behind(&self, max: usize) -> (step: usize)
        ensures
            step == max_step_behind(self.list_index as int, max as int),
    {
        if self.list_index > max {
            max
        } else {
            self.list_index
        }
    }
}

impl Default for TableStates {
    fn default() -> (states: Self)
        ensures
            states.list_index == 0,
            states.list_len == 0,
    {
        TableStates { list_index: 0, list_len: 0 }
    }
}


// -- Laws of the selection

/// Fixing the index always leaves the cursor inside the list, leaves a
/// cursor that already is there where it is, and moves a cursor past the
/// end onto the last row.
pub proof fn fix_places_cursor_in_bounds(index: int, len: int)
    requires
        0 <= index,
        0 <= len,
    ensures
        index_in_bounds(fixed_index(index, len), len),
        index_in_bounds(index, len) ==> fixed_index(index, len) == index,
        index >= len > 0 ==> fixed_index(index, len) == len - 1,
        len == 0 ==> fixed_index(index, len) == 0,
{
}

/// Moving, scrolling or going to either end keeps a cursor that is inside
/// the list inside the list.
pub proof fn moves_keep_cursor_in_bounds(index: int, len: int, rewind: bool, step: int)
    requires
        index_in_bounds(index, len),
        0 <= step,
    ensures
        index_in_bounds(next_index(index, len, rewind), len),
        index_in_bounds(prev_index(index, len, rewind), len),
        index_in_bounds(index + max_step_ahead(index, len, step), len),
        index_in_bounds(index - max_step_behind(index, step), len),
        index_in_bounds(0, len),
        index_in_bounds(last_index(len), len),
{
}

/// Without rewinding, moving down then up (or up then down) comes back to
/// the same row when the first move was possible.
pub proof fn moves_down_and_up_cancel(index: int, len: int)
    requires
        index_in_bounds(index, len),
    ensures
        index + 1 < len ==> prev_index(next_index(index, len, false), len, false) == index,
        index > 0 ==> next_index(prev_index(index, len, false), len, false) == index,
        index + 1 >= len ==> next_index(index, len, false) == index,
        index == 0 ==> prev_index(index, len, false) == index,
{
}

/// With rewinding, moving down from the last row goes to the first one, and
/// moving up from the first row goes to the last one.
pub proof fn rewind_wraps_around(len: int)
    requires
        len > 0,
    ensures
        next_index(len - 1, len, true) == 0,
        prev_index(0, len, true) == len - 1,
{
}

/// Scrolling down by `step` moves the cursor `step` rows, or onto the last
/// row when fewer rows are left; scrolling back up by the same step after a
/// full step down comes back to the same row.
pub proof fn scroll_down_and_up(index: int, len: int, step: int)
    requires
        index_in_bounds(index, len),
        0 <= step,
    ensures
        len > 0 ==> index + max_step_ahead(index, len, step) == if index + step < len {
            index + step
        } else {
            len - 1
        },
        index - max_step_behind(index, step) == if index >= step {
            index - step
        } else {
            0
        },
        index + step < len ==> {
            let down = index + max_step_ahead(index, len, step);
            down - max_step_behind(down, step) == index
        },
{
}

// -- Commands

/// A direction to move or scroll in.
#[derive(Clone, Copy, Debug, PartialEq, Eq, Structural)]
pub enum Direction {
    Down,
    Left,
    Right,
    Up,
}

/// A position to go to.
#[derive(Clone, Copy, Debug, PartialEq, Eq, Structural)]
pub enum Position {
    Begin,
    End,
    At(usize),
}

/// A command given to a component.
#[derive(Clone, Copy, Debug, PartialEq, Eq, Structural)]
pub enum Cmd {
    Type(char),
    Move(Direction),
    Scroll(Direction),
    GoTo(Position),
    Submit,
    Delete,
    Cancel,
    Toggle,
    Change,
    Tick,
    Custom,
    Nothing,
}

/// What a command did to a table: the selection changed, with the table's
/// new state, or it stayed unchanged.
#[derive(Clone, Copy, Debug, PartialEq, Eq, Structural)]
pub enum CmdResult {
    Changed(Option<usize>),
    Unchanged,
}

// -- Component

/// ## Table
///
/// represents a read-only text component without any container.
pub struct Table {
    /// The attributes of the table.
    pub props: Props,
    /// The selection.
    pub states: TableStates,
}

/// The table scrolls (its state is the selected row): not by default.
pub open spec fn scroll_of(props: Props) -> bool {
    match props.scroll {
        Some(b) => b,
        None => false,
    }
}

/// The selection wraps around at the ends: not by default.
pub open spec fn rewind_of(props: Props) -> bool {
    match props.rewind {
        Some(b) => b,
        None => false,
    }
}

/// Rows skipped by one scroll: eight by default.
pub open spec fn scroll_step_of(props: Props) -> usize {
    match props.scroll_step {
        Some(s) => s,
        None => 8,
    }
}

/// The longest row of a table (zero for no row).
pub open spec fn max_row_len(rows: Seq<Vec<TextSpan>>) -> int
    decreases rows.len(),
{
    if rows.len() == 0 {
        0
    } else {
        let m = max_row_len(rows.drop_last());
        let l = rows.last()@.len() as int;
        if l > m {
            l
        } else {
            m
        }
    }
}

/// Number of columns: that of the longest row, or one when there is no
/// content or no row.
pub open spec fn column_count(props: Props) -> int {
    match props.content {
        Some(rows) => if rows@.len() == 0 {
            1
        } else {
            max_row_len(rows@)
        },
        None => 1,
    }
}

/// The width of each column, in percent: those set, or the table shared
/// equally between the columns.
pub open spec fn layout_of(props: Props) -> Seq<u16> {
    match props.widths {
        Some(w) => w@,
        None => {
            let columns = column_count(props);
            let share: int = 100int / (if columns > 1 {
                columns
            } else {
                1
            });
            equal_widths(columns as nat, share as u16)
        },
    }
}

/// The state of a table: the selected row when it scrolls.
pub open spec fn table_state(states: TableStates, props: Props) -> Option<usize> {
    if scroll_of(props) {
        Some(states.list_index)
    } else {
        None
    }
}

/// `n` columns of `share` percent each.
pub open spec fn equal_widths(n: nat, share: u16) -> Seq<u16> {
    Seq::new(n, |_i: int| share)
}

/// The selected row after `cmd`.
pub open spec fn index_after(states: TableStates, props: Props, cmd: Cmd) -> int {
    let index = states.list_index as int;
    let len = states.list_len as int;
    match cmd {
        Cmd::Move(Direction::Down) => next_index(index, len, rewind_of(props)),
        Cmd::Move(Direction::Up) => prev_index(index, len, rewind_of(props)),
        Cmd::Scroll(Direction::Down) => index + max_step_ahead(index, len, scroll_step_of(props) as int),
        Cmd::Scroll(Direction::Up) => index - max_step_behind(index, scroll_step_of(props) as int),
        Cmd::GoTo(Position::Begin) => 0,
        Cmd::GoTo(Position::End) => last_index(len),
        _ => index,
    }
}

impl Table {
    pub fn foreground(self, fg: Color) -> (t: Self)
        ensures
            t.props == (Props { foreground: Some(fg), ..self.props }),
            t.states == self.states,
    {
        Table { props: Props { foreground: Some(fg), ..self.props }, states: self.states }
    }

    pub fn background(self, bg: Color) -> (t: Self)
        ensures
            t.props == (Props { background: Some(bg), ..self.props }),
            t.states == self.states,
    {
        Table { props: Props { background: Some(bg), ..self.props }, states: self.states }
    }

    pub fn inactive(self, s: Style) -> (t: Self)
        ensures
            t.props == (Props { focus_style: Some(s), ..self.props }),
            t.states == self.states,
    {
        Table { props: Props { focus_style: Some(s), ..self.props }, states: self.states }
    }

    pub fn modifiers(self, m: u16) -> (t: Self)
        ensures
            t.props == (Props { text_props: Some(m), ..self.props }),
            t.states == self.states,
    {
        Table { props: Props { text_props: Some(m), ..self.props }, states: self.states }
    }

    pub fn borders(self, b: Borders) -> (t: Self)
        ensures
            t.props == (Props { borders: Some(b), ..self.props }),
            t.states == self.states,
    {
        Table { props: Props { borders: Some(b), ..self.props }, states: self.states }
    }

    pub fn title(self, title: &str, a: Alignment) -> (t: Self)
        ensures
            t.props == (Props { title: t.props.title, ..self.props }),
            t.props.title matches Some((s, al)) && s@ == title@ && al == a,
            t.states == self.states,
    {
        Table { props: Props { title: Some((String::from_str(title), a)), ..self.props }, states: self.states }
    }

    pub fn step(self, step: usize) -> (t: Self)
        ensures
            t.props == (Props { scroll_step: Some(step), ..self.props }),
            t.states == self.states,
    {
        Table { props: Props { scroll_step: Some(step), ..self.props }, states: self.states }
    }

    pub fn scroll(self, scrollable: bool) -> (t: Self)
        ensures
            t.props == (Props { scroll: Some(scrollable), ..self.props }),
            t.states == self.states,
    {
        Table { props: Props { scroll: Some(scrollable), ..self.props }, states: self.states }
    }

    pub fn highlighted_str(self, s: &str) -> (t: Self)
        ensures
            t.props == (Props { highlighted_str: t.props.highlighted_str, ..self.props }),
            t.props.highlighted_str matches Some(h) && h@ == s@,
            t.states == self.states,
    {
        Table { props: Props { highlighted_str: Some(String::from_str(s)), ..self.props }, states: self.states }
    }

    pub fn highlighted_color(self, c: Color) -> (t: Self)
        ensures
            t.props == (Props { highlighted_color: Some(c), ..self.props }),
            t.states == self.states,
    {
        Table { props: Props { highlighted_color: Some(c), ..self.props }, states: self.states }
    }

    pub fn column_spacing(self, w: u16) -> (t: Self)
        ensures
            t.props == (Props { column_spacing: Some(w), ..self.props }),
            t.states == self.states,
    {
        Table { props: Props { column_spacing: Some(w), ..self.props }, states: self.states }
    }

    pub fn row_height(self, h: u16) -> (t: Self)
        ensures
            t.props == (Props { row_height: Some(h), ..self.props }),
            t.states == self.states,
    {
        Table { props: Props { row_height: Some(h), ..self.props }, states: self.states }
    }

    pub fn widths(self, w: &[u16]) -> (t: Self)
        ensures
            t.props == (Props { widths: t.props.widths, ..self.props }),
            t.props.widths matches Some(v) && v@ == w@,
            t.states == self.states,
    {
        Table { props: Props { widths: Some(vstd::slice::slice_to_vec(w)), ..self.props }, states: self.states }
    }

    pub fn headers(self, headers: &[&str]) -> (t: Self)
        ensures
            t.props == (Props { headers: t.props.headers, ..self.props }),
            t.props.headers matches Some(v) && v@.len() == headers@.len() && (forall|i: int|
                0 <= i < v@.len() ==> #[trigger] v@[i]@ == headers@[i]@),
            t.states == self.states,
    {
        let mut v: Vec<String> = Vec::new();
        let mut i: usize = 0;
        while i < headers.len()
            invariant
                0 <= i <= headers@.len(),
                v@.len() == i,
                forall|k: int| 0 <= k < i ==> #[trigger] v@[k]@ == headers@[k]@,
            decreases headers@.len() - i,
        {
            v.push(String::from_str(headers[i]));
            i = i + 1;
        }
        Table { props: Props { headers: Some(v), ..self.props }, states: self.states }
    }

    /// Sets the content of the table: the number of rows becomes that of
    /// the new content, and the selection stays where it can.
    pub fn set_content(&mut self, t: Vec<Vec<TextSpan>>)
        ensures
            final(self).props == (Props { content: Some(t), ..old(self).props }),
            final(self).states.list_len == t@.len(),
            final(self).states.list_index == fixed_index(old(self).states.list_index as int, t@.len() as int),
    {
        let len = t.len();
        self.props.content = Some(t);
        self.states.set_list_len(len);
        self.states.fix_list_index();
    }

    pub fn table(self, t: Vec<Vec<TextSpan>>) -> (r: Self)
        ensures
            r.props == (Props { content: Some(t), ..self.props }),
            r.states.list_len == t@.len(),
            r.states.list_index == fixed_index(self.states.list_index as int, t@.len() as int),
    {
        let mut r = self;
        r.set_content(t);
        r
    }

    pub fn rewind(self, r: bool) -> (t: Self)
        ensures
            t.props == (Props { rewind: Some(r), ..self.props }),
            t.states == self.states,
    {
        Table { props: Props { rewind: Some(r), ..self.props }, states: self.states }
    }

    /// Sets the selected line: when the table scrolls, the selection moves
    /// to `line`, or to the last row when `line` is beyond it.
    pub fn set_selected_line(&mut self, line: usize)
        ensures
            final(self).props == (Props { value: Some(line), ..old(self).props }),
            final(self).states.list_len == old(self).states.list_len,
            final(self).states.list_index == if scroll_of(old(self).props) {
                fixed_index(line as int, old(self).states.list_len as int)
            } else {
                old(self).states.list_index as int
            },
    {
        self.props.value = Some(line);
        if self.is_scrollable() {
            self.states.list_index = line;
            self.states.fix_list_index();
        }
    }

    /// Set initial selected line
    /// This method must be called after `rows` and `scrollable` in order to work
    pub fn selected_line(self, line: usize) -> (t: Self)
        ensures
            t.props == (Props { value: Some(line), ..self.props }),
            t.states.list_len == self.states.list_len,
            t.states.list_index == if scroll_of(self.props) {
                fixed_index(line as int, self.states.list_len as int)
            } else {
                self.states.list_index as int
            },
    {
        let mut t = self;
        t.set_selected_line(line);
        t
    }

    /// Sets one attribute: setting the content also sets the number of
    /// rows and keeps the selection where it can; setting the value moves
    /// the selection when the table scrolls; any other attribute leaves the
    /// selection as it is.
    pub fn attr(&mut self, v: AttrValue)
        ensures
            final(self).props == with_attr(old(self).props, v),
            final(self).states.list_len == match v {
                AttrValue::Content(t) => t@.len(),
                _ => old(self).states.list_len as nat,
            },
            final(self).states.list_index == match v {
                AttrValue::Content(t) => fixed_index(old(self).states.list_index as int, t@.len() as int),
                AttrValue::Value(line) => if scroll_of(old(self).props) {
                    fixed_index(line as int, old(self).states.list_len as int)
                } else {
                    old(self).states.list_index as int
                },
                _ => old(self).states.list_index as int,
            },
    {
        match v {
            AttrValue::Content(t) => self.set_content(t),
            AttrValue::Value(line) => self.set_selected_line(line),
            other => self.props.set(other),
        }
    }

    /// ### scrollable
    ///
    /// returns the value of the scrollable flag; by default is false
    fn is_scrollable(&self) -> (b: bool)
        ensures
            b == scroll_of(self.props),
    {
        match self.props.scroll {
            Some(b) => b,
            None => false,
        }
    }

    fn rewindable(&self) -> (b: bool)
        ensures
            b == rewind_of(self.props),
    {
        match self.props.rewind {
            Some(b) => b,
            None => false,
        }
    }

    /// ### layout
    ///
    /// Returns layout based on properties.
    /// If layout is not set in properties, they'll be divided by rows number
    pub fn layout(&self) -> (widths: Vec<u16>)
        ensures
            widths@ == layout_of(self.props),
    {
        match &self.props.widths {
            Some(w) => w.clone(),
            None => {
                // Get amount of columns (maximum len of row elements)
                let columns: usize = match &self.props.content {
                    Some(rows) => {
                        if rows.len() == 0 {
                            1
                        } else {
                            let mut m: usize = 0;
                            let mut i: usize = 0;
                            while i < rows.len()
                                invariant
                                    0 <= i <= rows@.len(),
                                    m == max_row_len(rows@.take(i as int)),
                                decreases rows@.len() - i,
                            {
                                proof {
                                    assert(rows@.take(i + 1).drop_last() =~= rows@.take(i as int));
                                }
                                if rows[i].len() > m {
                                    m = rows[i].len();
                                }
                                i = i + 1;
                            }
                            proof {
                                assert(rows@.take(i as int) =~= rows@);
                            }
                            m
                        }
                    },
                    None => 1,
                };
                // Calc width in equal way, make sure not to divide by zero (this can happen when rows is [[]])
                let share: usize = 100 / if columns > 1 {
                    columns
                } else {
                    1
                };
                let width: u16 = share as u16;
                let mut v: Vec<u16> = Vec::new();
                let mut k: usize = 0;
                while k < columns
                    invariant
                        0 <= k <= columns,
                        v@.len() == k,
                        forall|j: int| 0 <= j < k ==> #[trigger] v@[j] == width,
                    decreases columns - k,
                {
                    v.push(width);
                    k = k + 1;
                }
                proof {
                    assert(v@ =~= layout_of(self.props));
                }
                v
            },
        }
    }

    /// The state of the table: the selected row when it scrolls, none
    /// otherwise.
    pub fn state(&self) -> (s: Option<usize>)
        ensures
            s == table_state(self.states, self.props),
    {
        match self.is_scrollable() {
            true => Some(self.states.list_index),
            false => None,
        }
    }

    /// Performs a command: moves the selection, scrolls it by the scroll
    /// step, or sends it to the first or last row. Tells whether the
    /// selection changed.
    pub fn perform(&mut self, cmd: Cmd) -> (res: CmdResult)
        requires
            cmd == Cmd::Scroll(Direction::Down) ==> old(self).states.list_len == 0
                || old(self).states.list_index < old(self).states.list_len,
        ensures
            final(self).props == old(self).props,
            final(self).states.list_len == old(self).states.list_len,
            final(self).states.list_index == index_after(old(self).states, old(self).props, cmd),
            res == if final(self).states.list_index != old(self).states.list_index {
                CmdResult::Changed(table_state(final(self).states, final(self).props))
            } else {
                CmdResult::Unchanged
            },
    {
        let prev = self.states.list_index;
        match cmd {
            Cmd::Move(Direction::Down) => {
                let rewind = self.rewindable();
                self.states.incr_list_index(rewind);
            },
            Cmd::Move(Direction::Up) => {
                let rewind = self.rewindable();
                self.states.decr_list_index(rewind);
            },
            Cmd::Scroll(Direction::Down) => {
                let step: usize = match self.props.scroll_step {
                    Some(s) => s,
                    None => 8,
                };
                let step: usize = self.states.calc_max_step_ahead(step);
                let mut k: usize = 0;
                while k < step
                    invariant
                        0 <= k <= step,
                        step == max_step_ahead(prev as int, self.states.list_len as int, scroll_step_of(self.props) as int),
                        prev < self.states.list_len || self.states.list_len == 0,
                        self.states.list_index == prev + k,
                        self.props == old(self).props,
                        self.states.list_len == old(self).states.list_len,
                    decreases step - k,
                {
                    self.states.incr_list_index(false);
                    k = k + 1;
                }
            },
            Cmd::Scroll(Direction::Up) => {
                let step: usize = match self.props.scroll_step {
                    Some(s) => s,
                    None => 8,
                };
                let step: usize = self.states.calc_max_step_behind(step);
                let mut k: usize = 0;
                while k < step
                    invariant
                        0 <= k <= step,
                        step == max_step_behind(prev as int, scroll_step_of(self.props) as int),
                        self.states.list_index == prev - k,
                        self.props == old(self).props,
                        self.states.list_len == old(self).states.list_len,
                    decreases step - k,
                {
                    self.states.decr_list_index(false);
                    k = k + 1;
                }
            },
            Cmd::GoTo(Position::Begin) => {
                self.states.list_index_at_first();
            },
            Cmd::GoTo(Position::End) => {
                self.states.list_index_at_last();
            },
            _ => {},
        }
        if prev != self.states.list_index {
            CmdResult::Changed(self.state())
        } else {
            CmdResult::Unchanged
        }
    }
}

/// The scroll and rewind flags are the values set, off unless set to
/// `true`; the scroll step is the one set, or eight; the state is the
/// selected row exactly when the table scrolls.
pub proof fn flags_are_the_values_set(states: TableStates, props: Props)
    ensures
        scroll_of(props) <==> props.scroll == Some(true),
        rewind_of(props) <==> props.rewind == Some(true),
        props.scroll_step matches Some(n) ==> scroll_step_of(props) == n,
        props.scroll_step is None ==> scroll_step_of(props) == 8,
        props.scroll == Some(true) ==> table_state(states, props) == Some(states.list_index),
        props.scroll != Some(true) ==> table_state(states, props) is None,
{
}

/// What each command does to a selection inside the list: a move goes one
/// row, and past either end only when rewinding is set to `true`; a scroll
/// goes the scroll step (eight unless set), stopping at either end; going
/// to the beginning or the end selects the first or the last row; every
/// other command keeps the selection.
pub proof fn commands_move_the_selection(states: TableStates, props: Props, cmd: Cmd)
    requires
        states.in_bounds(),
    ensures
        ({
            let i = states.list_index as int;
            let len = states.list_len as int;
            let step: int = match props.scroll_step {
                Some(n) => n as int,
                None => 8,
            };
            let rewind = props.rewind == Some(true);
            let after = index_after(states, props, cmd);
            &&& cmd == Cmd::Move(Direction::Down) ==> after == if i + 1 < len {
                i + 1
            } else if rewind {
                0
            } else {
                i
            }
            &&& cmd == Cmd::Move(Direction::Up) ==> after == if i > 0 {
                i - 1
            } else if rewind && len > 0 {
                len - 1
            } else {
                i
            }
            &&& cmd == Cmd::Scroll(Direction::Down) ==> after == if len == 0 {
                0
            } else if i + step < len - 1 {
                i + step
            } else {
                len - 1
            }
            &&& cmd == Cmd::Scroll(Direction::Up) ==> after == if i > step {
                i - step
            } else {
                0
            }
            &&& cmd == Cmd::GoTo(Position::Begin) ==> after == 0
            &&& cmd == Cmd::GoTo(Position::End) ==> after == if len > 0 {
                len - 1
            } else {
                0
            }
            &&& (cmd != Cmd::Move(Direction::Down) && cmd != Cmd::Move(Direction::Up) && cmd
                != Cmd::Scroll(Direction::Down) && cmd != Cmd::Scroll(Direction::Up) && cmd
                != Cmd::GoTo(Position::Begin) && cmd != Cmd::GoTo(Position::End)) ==> after == i
        }),
{
}

/// Without rewinding, moving up from the first row or down from the last
/// one leaves the selection where it is.
pub proof fn no_rewind_stops_at_the_ends(states: TableStates, props: Props)
    requires
        states.in_bounds(),
        props.rewind != Some(true),
    ensures
        states.list_index == 0 ==> index_after(states, props, Cmd::Move(Direction::Up)) == 0,
        states.list_index + 1 >= states.list_len ==> index_after(states, props, Cmd::Move(Direction::Down))
            == states.list_index,
{
}

/// Every command leaves a selection that is inside the list inside the
/// list.
pub proof fn commands_keep_selection_in_bounds(states: TableStates, props: Props, cmd: Cmd)
    requires
        states.in_bounds(),
    ensures
        index_in_bounds(index_after(states, props, cmd), states.list_len as int),
{
    moves_keep_cursor_in_bounds(
        states.list_index as int,
        states.list_len as int,
        rewind_of(props),
        scroll_step_of(props) as int,
    );
}

/// Going to the end and then to the beginning selects the first row; going
/// to the beginning and then to the end selects the last one.
pub proof fn goto_ends(states: TableStates, props: Props)
    ensures
        index_after(
            TableStates { list_index: index_after(states, props, Cmd::GoTo(Position::End)) as usize, ..states },
            props,
            Cmd::GoTo(Position::Begin),
        ) == 0,
        index_after(
            TableStates { list_index: index_after(states, props, Cmd::GoTo(Position::Begin)) as usize, ..states },
            props,
            Cmd::GoTo(Position::End),
        ) == last_index(states.list_len as int),
{
}

/// Sum of the column widths of a layout.
pub open spec fn total_width(widths: Seq<u16>) -> int
    decreases widths.len(),
{
    if widths.len() == 0 {
        0
    } else {
        total_width(widths.drop_last()) + widths.last()
    }
}

/// Columns of equal width of `share` percent each add up to `n * share`.
proof fn total_of_equal_widths(n: nat, share: u16)
    ensures
        total_width(equal_widths(n, share)) == n * share,
    decreases n,
{
    if n > 0 {
        let s = equal_widths(n, share);
        assert(s.drop_last() =~= equal_widths((n - 1) as nat, share));
        assert(s.last() == share);
        total_of_equal_widths((n - 1) as nat, share);
        assert(total_width(s) == total_width(s.drop_last()) + s.last());
        assert(n * share == (n - 1) * share + share) by (nonlinear_arith);
    } else {
        assert(equal_widths(n, share).len() == 0);
    }
}

/// Without widths set, the table has one column per cell of its longest
/// row (one column when it has no row), all of the same width, and
/// together they take at most the whole width.
pub proof fn equal_columns_fill_at_most_the_width(props: Props)
    requires
        props.widths is None,
    ensures
        layout_of(props).len() == column_count(props),
        forall|i: int, j: int|
            0 <= i < layout_of(props).len() && 0 <= j < layout_of(props).len() ==> layout_of(props)[i]
                == layout_of(props)[j],
        total_width(layout_of(props)) <= 100,
{
    let columns = column_count(props);
    assert(columns >= 0) by {
        match props.content {
            Some(rows) => {
                if rows@.len() > 0 {
                    max_row_len_nonnegative(rows@);
                }
            },
            None => {},
        }
    }
    let d: int = if columns > 1 {
        columns
    } else {
        1
    };
    let share: int = 100int / d;
    assert(0 <= share <= 100) by (nonlinear_arith)
        requires
            d >= 1,
            share == 100int / d,
    ;
    total_of_equal_widths(columns as nat, share as u16);
    assert(columns * share <= 100) by (nonlinear_arith)
        requires
            d >= 1,
            share == 100int / d,
            0 <= columns <= d,
    ;
}

proof fn max_row_len_is_the_longest(rows: Seq<Vec<TextSpan>>)
    requires
        rows.len() > 0,
    ensures
        forall|r: int| 0 <= r < rows.len() ==> (#[trigger] rows[r])@.len() <= max_row_len(rows),
        exists|r: int| 0 <= r < rows.len() && (#[trigger] rows[r])@.len() == max_row_len(rows),
    decreases rows.len(),
{
    let prev = rows.drop_last();
    let l = rows.last()@.len() as int;
    assert(rows[rows.len() - 1] == rows.last());
    if prev.len() == 0 {
        assert(max_row_len(prev) == 0);
        assert forall|r: int| 0 <= r < rows.len() implies (#[trigger] rows[r])@.len() <= max_row_len(rows) by {
            assert(r == rows.len() - 1);
        }
    } else {
        max_row_len_is_the_longest(prev);
        let m = max_row_len(prev);
        assert forall|r: int| 0 <= r < rows.len() implies (#[trigger] rows[r])@.len() <= max_row_len(rows) by {
            if r < prev.len() {
                assert(prev[r] == rows[r]);
            }
        }
        if l <= m {
            let r = choose|r: int| 0 <= r < prev.len() && (#[trigger] prev[r])@.len() == m;
            assert(prev[r] == rows[r]);
        }
    }
}

/// Without widths set, a table with rows has one column per cell of its
/// longest row: no row is longer, and some row is that long. The columns
/// share the width equally, as widely as they can: each column is a whole
/// percentage `w` with `w * n <= 100 < (w + 1) * n` for `n` columns. With
/// widths set, the layout is those widths.
pub proof fn columns_follow_the_longest_row(props: Props)
    ensures
        props.widths matches Some(w) ==> layout_of(props) == w@,
        (props.widths is None && props.content is Some && props.content->0@.len() > 0) ==> {
            &&& forall|r: int|
                0 <= r < props.content->0@.len() ==> (#[trigger] props.content->0@[r])@.len()
                    <= column_count(props)
            &&& exists|r: int|
                0 <= r < props.content->0@.len() && (#[trigger] props.content->0@[r])@.len()
                    == column_count(props)
        },
        props.widths is None ==> layout_of(props).len() == column_count(props),
        (props.widths is None && column_count(props) >= 1) ==> forall|i: int|
            0 <= i < layout_of(props).len() ==> #[trigger] layout_of(props)[i] * column_count(props)
                <= 100 < (layout_of(props)[i] + 1) * column_count(props),
{
    if props.widths is None {
        match props.content {
            Some(rows) => {
                if rows@.len() > 0 {
                    max_row_len_is_the_longest(rows@);
                }
            },
            None => {},
        }
        equal_columns_fill_at_most_the_width(props);
        let c = column_count(props);
        if c >= 1 {
            let d: int = if c > 1 {
                c
            } else {
                1
            };
            assert(d == c);
            let share: int = 100int / d;
            assert(share * c <= 100 < (share + 1) * c) by (nonlinear_arith)
                requires
                    c >= 1,
                    share == 100int / c,
            ;
            assert(0 <= share <= 100) by (nonlinear_arith)
                requires
                    c >= 1,
                    share == 100int / c,
            ;
            assert forall|i: int| 0 <= i < layout_of(props).len() implies #[trigger] layout_of(props)[i]
                * c <= 100 < (layout_of(props)[i] + 1) * c by {
                assert(layout_of(props)[i] == share as u16);
            }
        }
    }
}

/// How the selected row is marked: in the highlighted colour, reversed
/// exactly when the table has focus (or its own modifiers reverse it),
/// keeping the table's modifiers; not marked without a highlighted colour.
pub proof fn highlight_marks_focus(props: Props)
    ensures
        props.highlighted_color is None ==> highlight_style_of(props) is None,
        props.highlighted_color matches Some(c) ==> {
            let st = highlight_style_of(props)->0;
            &&& highlight_style_of(props) is Some
            &&& st.fg == Some(c)
            &&& st.bg is None
            &&& st.sub_modifier == 0
            &&& st.add_modifier & modifiers_of(props) == modifiers_of(props)
            &&& (st.add_modifier & REVERSED != 0 <==> (props.focus == Some(true) || modifiers_of(props)
                & REVERSED != 0))
            &&& st.add_modifier & !REVERSED == modifiers_of(props) & !REVERSED
        },
{
    let m = modifiers_of(props);
    assert((m | REVERSED) & m == m && (m | REVERSED) & REVERSED != 0 && (m | REVERSED) & !REVERSED == m
        & !REVERSED && m & m == m) by (bit_vector);
}

/// The longest row has a length of at least zero.
proof fn max_row_len_nonnegative(rows: Seq<Vec<TextSpan>>)
    ensures
        max_row_len(rows) >= 0,
    decreases rows.len(),
{
    if rows.len() > 0 {
        max_row_len_nonnegative(rows.drop_last());
    }
}

// -- What a table draws

/// Everything a table draws: its rows of styled cells, their height and
/// column widths, the block around it, how the selected row is marked, the
/// header, and the selected row when the table scrolls.
pub struct TableView {
    pub rows: Vec<Vec<Span>>,
    pub row_height: u16,
    pub widths: Vec<u16>,
    pub block: Block,
    pub highlight_style: Option<Style>,
    pub highlight_symbol: Option<String>,
    pub column_spacing: Option<u16>,
    pub header: Option<(Vec<String>, Style)>,
    pub selected: Option<usize>,
}

/// The component is drawn: by default.
pub open spec fn display_of(props: Props) -> bool {
    match props.display {
        Some(b) => b,
        None => true,
    }
}

/// Foreground colour: the default colour unless set.
pub open spec fn foreground_of(props: Props) -> Color {
    match props.foreground {
        Some(c) => c,
        None => Color::Reset,
    }
}

/// Background colour: the default colour unless set.
pub open spec fn background_of(props: Props) -> Color {
    match props.background {
        Some(c) => c,
        None => Color::Reset,
    }
}

/// Text modifiers: none unless set.
pub open spec fn modifiers_of(props: Props) -> u16 {
    match props.text_props {
        Some(m) => m,
        None => 0,
    }
}

/// Borders: all sides, plain, in the default colour, unless set.
pub open spec fn borders_of(props: Props) -> Borders {
    match props.borders {
        Some(b) => b,
        None => Borders { sides: SIDES_ALL, modifiers: BorderType::Plain, color: Color::Reset },
    }
}

/// The component has focus: not by default.
pub open spec fn focus_of(props: Props) -> bool {
    match props.focus {
        Some(b) => b,
        None => false,
    }
}

/// Height of a row: one line unless set.
pub open spec fn row_height_of(props: Props) -> u16 {
    match props.row_height {
        Some(h) => h,
        None => 1,
    }
}

/// Title of the table and its alignment: no text, centred, unless set.
pub open spec fn table_title_of(props: Props) -> (Seq<char>, Alignment) {
    match props.title {
        Some(t) => (t.0@, t.1),
        None => (seq![], Alignment::Center),
    }
}

/// The cells of a table, each in its own style or the table's.
pub open spec fn rows_view(props: Props, rows: Seq<Vec<TextSpan>>) -> Seq<Seq<(Seq<char>, Style)>> {
    rows.map_values(
        |row: Vec<TextSpan>| row@.map_values(|col: TextSpan| (col.content@, span_style(props, col))),
    )
}

/// The rows a table draws: those of its content, if any.
pub open spec fn table_rows(props: Props) -> Seq<Seq<(Seq<char>, Style)>> {
    match props.content {
        Some(rows) => rows_view(props, rows@),
        None => seq![],
    }
}

/// How the selected row is drawn: in the highlighted colour, with the
/// table's modifiers, reversed when the table has focus; not marked when no
/// highlighted colour is set.
pub open spec fn highlight_style_of(props: Props) -> Option<Style> {
    match props.highlighted_color {
        Some(c) => Some(
            Style {
                fg: Some(c),
                bg: None,
                add_modifier: if focus_of(props) {
                    modifiers_of(props) | REVERSED
                } else {
                    modifiers_of(props)
                },
                sub_modifier: 0,
            },
        ),
        None => None,
    }
}

/// Style of the header: the table's colours and modifiers.
pub open spec fn header_style_of(props: Props) -> Style {
    Style {
        fg: Some(foreground_of(props)),
        bg: Some(background_of(props)),
        add_modifier: modifiers_of(props),
        sub_modifier: 0,
    }
}

/// Each attribute a table draws with is the value set, or its default: the
/// table is displayed, in the default colours, with no modifier, all four
/// plain borders in the default colour, no focus, rows one line high and a
/// centred empty title. The header is in the table's colours and
/// modifiers.
pub proof fn drawing_attributes_are_the_values_set(props: Props)
    ensures
        display_of(props) == props.display.unwrap_or(true),
        foreground_of(props) == props.foreground.unwrap_or(Color::Reset),
        background_of(props) == props.background.unwrap_or(Color::Reset),
        modifiers_of(props) == props.text_props.unwrap_or(0),
        borders_of(props) == props.borders.unwrap_or(
            Borders { sides: SIDES_ALL, modifiers: BorderType::Plain, color: Color::Reset },
        ),
        focus_of(props) == props.focus.unwrap_or(false),
        row_height_of(props) == props.row_height.unwrap_or(1),
        props.title matches Some(t) ==> table_title_of(props) == (t.0@, t.1),
        props.title is None ==> table_title_of(props) == (Seq::<char>::empty(), Alignment::Center),
        header_style_of(props) == (Style {
            fg: Some(props.foreground.unwrap_or(Color::Reset)),
            bg: Some(props.background.unwrap_or(Color::Reset)),
            add_modifier: props.text_props.unwrap_or(0),
            sub_modifier: 0,
        }),
{
}

/// The table draws each cell of its content, in place, with the cell's
/// text and the cell's style (its own colours and modifiers, or the
/// table's); it draws no row without content.
pub proof fn cells_are_drawn_in_place(props: Props)
    ensures
        props.content is None ==> table_rows(props).len() == 0,
        props.content matches Some(rows) ==> {
            &&& table_rows(props).len() == rows@.len()
            &&& forall|r: int|
                0 <= r < rows@.len() ==> (#[trigger] table_rows(props)[r]).len() == rows@[r]@.len()
            &&& forall|r: int, c: int|
                0 <= r < rows@.len() && 0 <= c < rows@[r]@.len() ==> #[trigger] table_rows(props)[r][c]
                    == (rows@[r]@[c].content@, span_style(props, rows@[r]@[c]))
        },
{
}

/// Copies strings, one by one.
fn copy_strings(v: &Vec<String>) -> (c: Vec<String>)
    ensures
        c@.len() == v@.len(),
        forall|i: int| 0 <= i < v@.len() ==> #[trigger] c@[i]@ == v@[i]@,
{
    let mut c: Vec<String> = Vec::new();
    let mut i: usize = 0;
    while i < v.len()
        invariant
            0 <= i <= v@.len(),
            c@.len() == i,
            forall|k: int| 0 <= k < i ==> #[trigger] c@[k]@ == v@[k]@,
        decreases v@.len() - i,
    {
        c.push(v[i].clone());
        i = i + 1;
    }
    c
}

impl Table {
    /// The cells of the table's content, each in its style.
    fn styled_rows(&self) -> (rows: Vec<Vec<Span>>)
        ensures
            lines_view(rows) == table_rows(self.props),
    {
        let mut res: Vec<Vec<Span>> = Vec::new();
        match &self.props.content {
            Some(table) => {
                let ghost expected = rows_view(self.props, table@);
                let mut i: usize = 0;
                while i < table.len()
                    invariant
                        0 <= i <= table@.len(),
                        self.props.content == Some(*table),
                        expected == rows_view(self.props, table@),
                        lines_view(res) == expected.take(i as int),
                    decreases table@.len() - i,
                {
                    let row = &table[i];
                    let mut cells: Vec<Span> = Vec::new();
                    let mut j: usize = 0;
                    while j < row.len()
                        invariant
                            0 <= j <= row@.len(),
                            *row == table@[i as int],
                            i < table@.len(),
                            expected == rows_view(self.props, table@),
                            cells@.len() == j,
                            forall|k: int| 0 <= k < j ==> #[trigger] cells@[k].content@ == row@[k].content@
                                && cells@[k].style == span_style(self.props, row@[k]),
                        decreases row@.len() - j,
                    {
                        let col = &row[j];
                        let (fg, bg, modifiers) = use_or_default_styles(&self.props, col);
                        let style = Style::new().add_modifier(modifiers).fg(fg).bg(bg);
                        proof {
                            assert(0u16 | modifiers == modifiers && 0u16 & !modifiers == 0u16) by (bit_vector);
                        }
                        cells.push(Span { content: col.content.clone(), style });
                        j = j + 1;
                    }
                    let ghost old_res = res;
                    res.push(cells);
                    proof {
                        assert(crate::utils::line_view(cells) =~= expected[i as int]);
                        assert(lines_view(res) =~= lines_view(old_res).push(crate::utils::line_view(cells)));
                        assert(expected.take(i + 1) =~= expected.take(i as int).push(expected[i as int]));
                    }
                    i = i + 1;
                }
                proof {
                    assert(expected.take(i as int) =~= expected);
                }
            },
            None => {
                proof {
                    assert(lines_view(res) =~= Seq::<Seq<(Seq<char>, Style)>>::empty());
                }
            },
        }
        res
    }

    /// What the table draws, or nothing when it is not displayed.
    pub fn render_view(&self) -> (view: Option<TableView>)
        ensures
            view is Some <==> display_of(self.props),
            view matches Some(v) ==> {
                &&& lines_view(v.rows) == table_rows(self.props)
                &&& v.row_height == row_height_of(self.props)
                &&& v.widths@ == layout_of(self.props)
                &&& v.block.borders == borders_of(self.props).sides
                &&& v.block.border_type == borders_of(self.props).modifiers
                &&& v.block.border_style == block_border_style(
                    borders_of(self.props),
                    focus_of(self.props),
                    self.props.focus_style,
                )
                &&& v.block.title@ == table_title_of(self.props).0
                &&& v.block.title_alignment == table_title_of(self.props).1
                &&& v.highlight_style == highlight_style_of(self.props)
                &&& (v.highlight_symbol is Some <==> self.props.highlighted_str is Some)
                &&& (v.highlight_symbol matches Some(h) ==> h@ == self.props.highlighted_str->0@)
                &&& v.column_spacing == self.props.column_spacing
                &&& (v.header is Some <==> (self.props.headers matches Some(h) && h@.len() > 0))
                &&& (v.header matches Some(hd) ==> {
                    &&& hd.0@.len() == self.props.headers->0@.len()
                    &&& (forall|i: int|
                        0 <= i < hd.0@.len() ==> #[trigger] hd.0@[i]@ == self.props.headers->0@[i]@)
                    &&& hd.1 == header_style_of(self.props)
                })
                &&& v.selected == table_state(self.states, self.props)
            },
    {
        let display = match self.props.display {
            Some(b) => b,
            None => true,
        };
        if !display {
            return None;
        }
        let foreground = match self.props.foreground {
            Some(c) => c,
            None => Color::Reset,
        };
        let background = match self.props.background {
            Some(c) => c,
            None => Color::Reset,
        };
        let modifiers: u16 = match self.props.text_props {
            Some(m) => m,
            None => 0,
        };
        let title = match &self.props.title {
            Some(t) => (t.0.clone(), t.1),
            None => (String::new(), Alignment::Center),
        };
        let borders = match self.props.borders {
            Some(b) => b,
            None => Borders::new(),
        };
        let focus = match self.props.focus {
            Some(b) => b,
            None => false,
        };
        let row_height = match self.props.row_height {
            Some(h) => h,
            None => 1,
        };
        let rows = self.styled_rows();
        let widths = self.layout();
        let block = get_block(borders, Some(title), focus, self.props.focus_style);
        let highlight_style = match self.props.highlighted_color {
            Some(c) => {
                let m = match focus {
                    true => modifiers | REVERSED,
                    false => modifiers,
                };
                let st = Style::new().fg(c).add_modifier(m);
                proof {
                    assert(0u16 | m == m && 0u16 & !m == 0u16) by (bit_vector);
                }
                Some(st)
            },
            None => None,
        };
        let highlight_symbol = match &self.props.highlighted_str {
            Some(h) => Some(h.clone()),
            None => None,
        };
        let header = match &self.props.headers {
            Some(h) => {
                if h.len() > 0 {
                    let style = Style::new().fg(foreground).bg(background).add_modifier(modifiers);
                    proof {
                        assert(0u16 | modifiers == modifiers && 0u16 & !modifiers == 0u16) by (bit_vector);
                    }
                    Some((copy_strings(h), style))
                } else {
                    None
                }
            },
            None => None,
        };
        let selected = self.state();
        Some(
            TableView {
                rows,
                row_height,
                widths,
                block,
                highlight_style,
                highlight_symbol,
                column_spacing: self.props.column_spacing,
                header,
                selected,
            },
        )
    }
}

impl Default for Table {
    fn default() -> (t: Self)
        ensures
            t.props.is_empty(),
            t.states.list_index == 0,
            t.states.list_len == 0,
    {
        Table { props: Props::default(), states: TableStates::default() }
    }
}

} // verus!
