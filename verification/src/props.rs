//! ## Props
//!
//! The properties that the components read: colours, text modifiers,
//! borders, styles, styled text spans and the attribute record of a
//! component.

use vstd::prelude::*;
use vstd::string::StringExecFns;

verus! {

/// A terminal colour.
#[derive(Clone, Copy, Debug, PartialEq, Eq, Structural)]
pub enum Color {
    Reset,
    Black,
    Red,
    Green,
    Yellow,
    Blue,
    Magenta,
    Cyan,
    Gray,
    DarkGray,
    LightRed,
    LightGreen,
    LightYellow,
    LightBlue,
    LightMagenta,
    LightCyan,
    White,
    Rgb(u8, u8, u8),
    Indexed(u8),
}

/// Horizontal alignment of a text.
#[derive(Clone, Copy, Debug, PartialEq, Eq, Structural)]
pub enum Alignment {
    Left,
    Center,
    Right,
}

/// The shape of the lines a border is drawn with.
#[derive(Clone, Copy, Debug, PartialEq, Eq, Structural)]
pub enum BorderType {
    Plain,
    Rounded,
    Double,
    Thick,
    QuadrantInside,
    QuadrantOutside,
}

// -- text modifiers: bit flags, as a `u16`

/// No modifier.
pub const MODIFIERS_EMPTY: u16 = 0;

/// Bold text.
pub const BOLD: u16 = 0x0001;

/// Dim text.
pub const DIM: u16 = 0x0002;

/// Italic text.
pub const ITALIC: u16 = 0x0004;

/// Underlined text.
pub const UNDERLINED: u16 = 0x0008;

/// Slowly blinking text.
pub const SLOW_BLINK: u16 = 0x0010;

/// Rapidly blinking text.
pub const RAPID_BLINK: u16 = 0x0020;

/// Reversed colours.
pub const REVERSED: u16 = 0x0040;

/// Hidden text.
pub const HIDDEN: u16 = 0x0080;

/// Crossed out text.
pub const CROSSED_OUT: u16 = 0x0100;

// -- border sides: bit flags, as a `u8`

/// No side.
pub const SIDES_NONE: u8 = 0;

/// The top side.
pub const SIDE_TOP: u8 = 0x01;

/// The right side.
pub const SIDE_RIGHT: u8 = 0x02;

/// The bottom side.
pub const SIDE_BOTTOM: u8 = 0x04;

/// The left side.
pub const SIDE_LEFT: u8 = 0x08;

/// All four sides.
pub const SIDES_ALL: u8 = 0x0f;

/// Style of a cell of the terminal: colours and the modifiers added and
/// removed.
#[derive(Clone, Copy, Debug, PartialEq, Eq, Structural)]
pub struct Style {
    pub fg: Option<Color>,
    pub bg: Option<Color>,
    pub add_modifier: u16,
    pub sub_modifier: u16,
}

/// The style that changes nothing.
pub open spec fn default_style() -> Style {
    Style { fg: None, bg: None, add_modifier: 0, sub_modifier: 0 }
}

impl Style {
    /// The style that changes nothing.
    pub fn new() -> (s: Style)
        ensures
            s == default_style(),
    {
        Style { fg: None, bg: None, add_modifier: 0, sub_modifier: 0 }
    }

    /// Sets the foreground colour.
    pub fn fg(self, color: Color) -> (s: Style)
        ensures
            s == (Style { fg: Some(color), ..self }),
    {
        Style { fg: Some(color), ..self }
    }

    /// Sets the background colour.
    pub fn bg(self, color: Color) -> (s: Style)
        ensures
            s == (Style { bg: Some(color), ..self }),
    {
        Style { bg: Some(color), ..self }
    }

    /// Adds the modifiers `m`: they are no longer removed.
    pub fn add_modifier(self, m: u16) -> (s: Style)
        ensures
            s == (Style {
                add_modifier: self.add_modifier | m,
                sub_modifier: self.sub_modifier & !m,
                ..self
            }),
    {
        Style { add_modifier: self.add_modifier | m, sub_modifier: self.sub_modifier & !m, ..self }
    }
}

/// The borders of a block: which sides, their shape and their colour.
#[derive(Clone, Copy, Debug, PartialEq, Eq, Structural)]
pub struct Borders {
    pub sides: u8,
    pub modifiers: BorderType,
    pub color: Color,
}

impl Borders {
    /// All sides, plain, in the default colour.
    pub fn new() -> (b: Borders)
        ensures
            b == (Borders { sides: SIDES_ALL, modifiers: BorderType::Plain, color: Color::Reset }),
    {
        Borders { sides: SIDES_ALL, modifiers: BorderType::Plain, color: Color::Reset }
    }

    /// Sets the sides.
    pub fn sides(self, sides: u8) -> (b: Borders)
        ensures
            b == (Borders { sides, ..self }),
    {
        Borders { sides, ..self }
    }

    /// Sets the shape of the lines.
    pub fn modifiers(self, modifiers: BorderType) -> (b: Borders)
        ensures
            b == (Borders { modifiers, ..self }),
    {
        Borders { modifiers, ..self }
    }

    /// Sets the colour.
    pub fn color(self, color: Color) -> (b: Borders)
        ensures
            b == (Borders { color, ..self }),
    {
        Borders { color, ..self }
    }

    /// The style the borders are drawn with: the default style with the
    /// borders' colour as foreground.
    pub fn style(&self) -> (s: Style)
        ensures
            s == (Style { fg: Some(self.color), ..default_style() }),
    {
        Style::new().fg(self.color)
    }
}

/// A piece of text with its colours and modifiers; `Color::Reset` and no
/// modifier mean "as the component says".
#[derive(Clone, Debug)]
pub struct TextSpan {
    pub content: String,
    pub fg: Color,
    pub bg: Color,
    pub modifiers: u16,
}

impl TextSpan {
    /// A span of `text` in the default colours, with no modifier.
    pub fn new(text: &str) -> (s: TextSpan)
        ensures
            s.content@ == text@,
            s.fg == Color::Reset,
            s.bg == Color::Reset,
            s.modifiers == 0,
    {
        TextSpan { content: String::from_str(text), fg: Color::Reset, bg: Color::Reset, modifiers: 0 }
    }

    /// Sets the foreground colour.
    pub fn fg(self, fg: Color) -> (s: TextSpan)
        ensures
            s.content == self.content,
            s.fg == fg,
            s.bg == self.bg,
            s.modifiers == self.modifiers,
    {
        TextSpan { fg, ..self }
    }

    /// Sets the background colour.
    pub fn bg(self, bg: Color) -> (s: TextSpan)
        ensures
            s.content == self.content,
            s.fg == self.fg,
            s.bg == bg,
            s.modifiers == self.modifiers,
    {
        TextSpan { bg, ..self }
    }

    /// Adds the modifiers `m`.
    pub fn add_modifiers(self, m: u16) -> (s: TextSpan)
        ensures
            s.content == self.content,
            s.fg == self.fg,
            s.bg == self.bg,
            s.modifiers == self.modifiers | m,
    {
        let modifiers = self.modifiers | m;
        TextSpan { modifiers, ..self }
    }

    /// Makes the text bold.
    pub fn bold(self) -> (s: TextSpan)
        ensures
            s.content == self.content,
            s.fg == self.fg,
            s.bg == self.bg,
            s.modifiers == self.modifiers | BOLD,
    {
        self.add_modifiers(BOLD)
    }

    /// Makes the text italic.
    pub fn italic(self) -> (s: TextSpan)
        ensures
            s.content == self.content,
            s.fg == self.fg,
            s.bg == self.bg,
            s.modifiers == self.modifiers | ITALIC,
    {
        self.add_modifiers(ITALIC)
    }

    /// Underlines the text.
    pub fn underlined(self) -> (s: TextSpan)
        ensures
            s.content == self.content,
            s.fg == self.fg,
            s.bg == self.bg,
            s.modifiers == self.modifiers | UNDERLINED,
    {
        self.add_modifiers(UNDERLINED)
    }

    /// Makes the text blink slowly.
    pub fn slow_blink(self) -> (s: TextSpan)
        ensures
            s.content == self.content,
            s.fg == self.fg,
            s.bg == self.bg,
            s.modifiers == self.modifiers | SLOW_BLINK,
    {
        self.add_modifiers(SLOW_BLINK)
    }

    /// Makes the text blink rapidly.
    pub fn rapid_blink(self) -> (s: TextSpan)
        ensures
            s.content == self.content,
            s.fg == self.fg,
            s.bg == self.bg,
            s.modifiers == self.modifiers | RAPID_BLINK,
    {
        self.add_modifiers(RAPID_BLINK)
    }

    /// Reverses the colours.
    pub fn reversed(self) -> (s: TextSpan)
        ensures
            s.content == self.content,
            s.fg == self.fg,
            s.bg == self.bg,
            s.modifiers == self.modifiers | REVERSED,
    {
        self.add_modifiers(REVERSED)
    }

    /// Crosses the text out.
    pub fn strikethrough(self) -> (s: TextSpan)
        ensures
            s.content == self.content,
            s.fg == self.fg,
            s.bg == self.bg,
            s.modifiers == self.modifiers | CROSSED_OUT,
    {
        self.add_modifiers(CROSSED_OUT)
    }
}

/// The attributes of a component. `None` is an attribute that was never
/// set, for which each component has its own default.
#[derive(Clone, Debug)]
pub struct Props {
    pub foreground: Option<Color>,
    pub background: Option<Color>,
    pub text_props: Option<u16>,
    pub borders: Option<Borders>,
    pub title: Option<(String, Alignment)>,
    pub focus: Option<bool>,
    pub focus_style: Option<Style>,
    pub display: Option<bool>,
    pub label: Option<String>,
    pub scroll: Option<bool>,
    pub scroll_step: Option<usize>,
    pub rewind: Option<bool>,
    pub highlighted_str: Option<String>,
    pub highlighted_color: Option<Color>,
    pub column_spacing: Option<u16>,
    pub row_height: Option<u16>,
    pub widths: Option<Vec<u16>>,
    pub headers: Option<Vec<String>>,
    pub content: Option<Vec<Vec<TextSpan>>>,
    pub value: Option<usize>,
}

impl Props {
    /// No attribute is set.
    pub open spec fn is_empty(&self) -> bool {
        &&& self.foreground is None
        &&& self.background is None
        &&& self.text_props is None
        &&& self.borders is None
        &&& self.title is None
        &&& self.focus is None
        &&& self.focus_style is None
        &&& self.display is None
        &&& self.label is None
        &&& self.scroll is None
        &&& self.scroll_step is None
        &&& self.rewind is None
        &&& self.highlighted_str is None
        &&& self.highlighted_color is None
        &&& self.column_spacing is None
        &&& self.row_height is None
        &&& self.widths is None
        &&& self.headers is None
        &&& self.content is None
        &&& self.value is None
    }
}

/// An attribute of a component with its value.
#[derive(Debug)]
pub enum AttrValue {
    Foreground(Color),
    Background(Color),
    TextProps(u16),
    Borders(Borders),
    Title(String, Alignment),
    Focus(bool),
    FocusStyle(Style),
    Display(bool),
    Label(String),
    Scroll(bool),
    ScrollStep(usize),
    Rewind(bool),
    HighlightedStr(String),
    HighlightedColor(Color),
    ColumnSpacing(u16),
    RowHeight(u16),
    Widths(Vec<u16>),
    Headers(Vec<String>),
    Content(Vec<Vec<TextSpan>>),
    Value(usize),
}

/// The name of an attribute.
#[derive(Clone, Copy, Debug, PartialEq, Eq, Structural)]
pub enum Attribute {
    Foreground,
    Background,
    TextProps,
    Borders,
    Title,
    Focus,
    FocusStyle,
    Display,
    Label,
    Scroll,
    ScrollStep,
    Rewind,
    HighlightedStr,
    HighlightedColor,
    ColumnSpacing,
    RowHeight,
    Widths,
    Headers,
    Content,
    Value,
}

/// The attribute a value is for.
pub open spec fn attribute_of(v: AttrValue) -> Attribute {
    match v {
        AttrValue::Foreground(_) => Attribute::Foreground,
        AttrValue::Background(_) => Attribute::Background,
        AttrValue::TextProps(_) => Attribute::TextProps,
        AttrValue::Borders(_) => Attribute::Borders,
        AttrValue::Title(_, _) => Attribute::Title,
        AttrValue::Focus(_) => Attribute::Focus,
        AttrValue::FocusStyle(_) => Attribute::FocusStyle,
        AttrValue::Display(_) => Attribute::Display,
        AttrValue::Label(_) => Attribute::Label,
        AttrValue::Scroll(_) => Attribute::Scroll,
        AttrValue::ScrollStep(_) => Attribute::ScrollStep,
        AttrValue::Rewind(_) => Attribute::Rewind,
        AttrValue::HighlightedStr(_) => Attribute::HighlightedStr,
        AttrValue::HighlightedColor(_) => Attribute::HighlightedColor,
        AttrValue::ColumnSpacing(_) => Attribute::ColumnSpacing,
        AttrValue::RowHeight(_) => Attribute::RowHeight,
        AttrValue::Widths(_) => Attribute::Widths,
        AttrValue::Headers(_) => Attribute::Headers,
        AttrValue::Content(_) => Attribute::Content,
        AttrValue::Value(_) => Attribute::Value,
    }
}

/// The attributes with one of them set to `v`.
pub open spec fn with_attr(p: Props, v: AttrValue) -> Props {
    match v {
        AttrValue::Foreground(c) => Props { foreground: Some(c), ..p },
        AttrValue::Background(c) => Props { background: Some(c), ..p },
        AttrValue::TextProps(m) => Props { text_props: Some(m), ..p },
        AttrValue::Borders(b) => Props { borders: Some(b), ..p },
        AttrValue::Title(t, a) => Props { title: Some((t, a)), ..p },
        AttrValue::Focus(f) => Props { focus: Some(f), ..p },
        AttrValue::FocusStyle(st) => Props { focus_style: Some(st), ..p },
        AttrValue::Display(d) => Props { display: Some(d), ..p },
        AttrValue::Label(l) => Props { label: Some(l), ..p },
        AttrValue::Scroll(b) => Props { scroll: Some(b), ..p },
        AttrValue::ScrollStep(n) => Props { scroll_step: Some(n), ..p },
        AttrValue::Rewind(b) => Props { rewind: Some(b), ..p },
        AttrValue::HighlightedStr(h) => Props { highlighted_str: Some(h), ..p },
        AttrValue::HighlightedColor(c) => Props { highlighted_color: Some(c), ..p },
        AttrValue::ColumnSpacing(w) => Props { column_spacing: Some(w), ..p },
        AttrValue::RowHeight(h) => Props { row_height: Some(h), ..p },
        AttrValue::Widths(w) => Props { widths: Some(w), ..p },
        AttrValue::Headers(h) => Props { headers: Some(h), ..p },
        AttrValue::Content(t) => Props { content: Some(t), ..p },
        AttrValue::Value(v) => Props { value: Some(v), ..p },
    }
}

/// The value of an attribute, if it is set.
pub open spec fn query(p: Props, a: Attribute) -> Option<AttrValue> {
    match a {
        Attribute::Foreground => match p.foreground {
            Some(c) => Some(AttrValue::Foreground(c)),
            None => None,
        },
        Attribute::Background => match p.background {
            Some(c) => Some(AttrValue::Background(c)),
            None => None,
        },
        Attribute::TextProps => match p.text_props {
            Some(m) => Some(AttrValue::TextProps(m)),
            None => None,
        },
        Attribute::Borders => match p.borders {
            Some(b) => Some(AttrValue::Borders(b)),
            None => None,
        },
        Attribute::Title => match p.title {
            Some(t) => Some(AttrValue::Title(t.0, t.1)),
            None => None,
        },
        Attribute::Focus => match p.focus {
            Some(f) => Some(AttrValue::Focus(f)),
            None => None,
        },
        Attribute::FocusStyle => match p.focus_style {
            Some(st) => Some(AttrValue::FocusStyle(st)),
            None => None,
        },
        Attribute::Display => match p.display {
            Some(d) => Some(AttrValue::Display(d)),
            None => None,
        },
        Attribute::Label => match p.label {
            Some(l) => Some(AttrValue::Label(l)),
            None => None,
        },
        Attribute::Scroll => match p.scroll {
            Some(b) => Some(AttrValue::Scroll(b)),
            None => None,
        },
        Attribute::ScrollStep => match p.scroll_step {
            Some(n) => Some(AttrValue::ScrollStep(n)),
            None => None,
        },
        Attribute::Rewind => match p.rewind {
            Some(b) => Some(AttrValue::Rewind(b)),
            None => None,
        },
        Attribute::HighlightedStr => match p.highlighted_str {
            Some(h) => Some(AttrValue::HighlightedStr(h)),
            None => None,
        },
        Attribute::HighlightedColor => match p.highlighted_color {
            Some(c) => Some(AttrValue::HighlightedColor(c)),
            None => None,
        },
        Attribute::ColumnSpacing => match p.column_spacing {
            Some(w) => Some(AttrValue::ColumnSpacing(w)),
            None => None,
        },
        Attribute::RowHeight => match p.row_height {
            Some(h) => Some(AttrValue::RowHeight(h)),
            None => None,
        },
        Attribute::Widths => match p.widths {
            Some(w) => Some(AttrValue::Widths(w)),
            None => None,
        },
        Attribute::Headers => match p.headers {
            Some(h) => Some(AttrValue::Headers(h)),
            None => None,
        },
        Attribute::Content => match p.content {
            Some(t) => Some(AttrValue::Content(t)),
            None => None,
        },
        Attribute::Value => match p.value {
            Some(v) => Some(AttrValue::Value(v)),
            None => None,
        },
    }
}

/// Setting an attribute gives it that value and leaves every other
/// attribute as it was.
pub proof fn setting_changes_only_that_attribute(p: Props, v: AttrValue, b: Attribute)
    ensures
        query(with_attr(p, v), attribute_of(v)) == Some(v),
        b != attribute_of(v) ==> query(with_attr(p, v), b) == query(p, b),
{
}

impl Props {
    /// Sets one attribute.
    pub fn set(&mut self, v: AttrValue)
        ensures
            *final(self) == with_attr(*old(self), v),
    {
        match v {
            AttrValue::Foreground(c) => self.foreground = Some(c),
            AttrValue::Background(c) => self.background = Some(c),
            AttrValue::TextProps(m) => self.text_props = Some(m),
            AttrValue::Borders(b) => self.borders = Some(b),
            AttrValue::Title(t, a) => self.title = Some((t, a)),
            AttrValue::Focus(f) => self.focus = Some(f),
            AttrValue::FocusStyle(st) => self.focus_style = Some(st),
            AttrValue::Display(d) => self.display = Some(d),
            AttrValue::Label(l) => self.label = Some(l),
            AttrValue::Scroll(b) => self.scroll = Some(b),
            AttrValue::ScrollStep(n) => self.scroll_step = Some(n),
            AttrValue::Rewind(b) => self.rewind = Some(b),
            AttrValue::HighlightedStr(h) => self.highlighted_str = Some(h),
            AttrValue::HighlightedColor(c) => self.highlighted_color = Some(c),
            AttrValue::ColumnSpacing(w) => self.column_spacing = Some(w),
            AttrValue::RowHeight(h) => self.row_height = Some(h),
            AttrValue::Widths(w) => self.widths = Some(w),
            AttrValue::Headers(h) => self.headers = Some(h),
            AttrValue::Content(t) => self.content = Some(t),
            AttrValue::Value(n) => self.value = Some(n),
        }
    }
}

impl Default for Props {
    fn default() -> (p: Self)
        ensures
            p.is_empty(),
    {
        Props {
            foreground: None,
            background: None,
            text_props: None,
            borders: None,
            title: None,
            focus: None,
            focus_style: None,
            display: None,
            label: None,
            scroll: None,
            scroll_step: None,
            rewind: None,
            highlighted_str: None,
            highlighted_color: None,
            column_spacing: None,
            row_height: None,
            widths: None,
            headers: None,
            content: None,
            value: None,
        }
    }
}

} // verus!
