//! ## ProgressBar
//!
//! `ProgressBar` provides a component which shows the progress. It is
//! possible to set the style for the progress bar and the text shown above
//! it.

use vstd::prelude::*;
use vstd::string::StringExecFns;

use crate::components::table::{
    background_of, borders_of, display_of, foreground_of, modifiers_of,
};
use crate::props::{with_attr, Alignment, AttrValue, Borders, Color, Props, Style};
use crate::utils::{block_border_style, get_block, Block};

verus! {

/// ## ProgressBar
///
/// The attributes of a progress bar: colours, borders, text modifiers,
/// title and label.
pub struct ProgressBar {
    /// The attributes of the progress bar.
    pub props: Props,
}

impl ProgressBar {
    /// Sets one attribute.
    pub fn attr(&mut self, v: AttrValue)
        ensures
            final(self).props == with_attr(old(self).props, v),
    {
        self.props.set(v);
    }

    /// A progress bar has no state.
    pub fn state(&self) -> (s: Option<usize>)
        ensures
            s is None,
    {
        None
    }

    pub fn foreground(self, fg: Color) -> (p: Self)
        ensures
            p.props == (Props { foreground: Some(fg), ..self.props }),
    {
        ProgressBar { props: Props { foreground: Some(fg), ..self.props } }
    }

    pub fn background(self, bg: Color) -> (p: Self)
        ensures
            p.props == (Props { background: Some(bg), ..self.props }),
    {
        ProgressBar { props: Props { background: Some(bg), ..self.props } }
    }

    pub fn borders(self, b: Borders) -> (p: Self)
        ensures
            p.props == (Props { borders: Some(b), ..self.props }),
    {
        ProgressBar { props: Props { borders: Some(b), ..self.props } }
    }

    pub fn modifiers(self, m: u16) -> (p: Self)
        ensures
            p.props == (Props { text_props: Some(m), ..self.props }),
    {
        ProgressBar { props: Props { text_props: Some(m), ..self.props } }
    }

    pub fn title(self, t: &str, a: Alignment) -> (p: Self)
        ensures
            p.props == (Props { title: p.props.title, ..self.props }),
            p.props.title matches Some((s, al)) && s@ == t@ && al == a,
    {
        ProgressBar { props: Props { title: Some((String::from_str(t), a)), ..self.props } }
    }

    pub fn label(self, s: &str) -> (p: Self)
        ensures
            p.props == (Props { label: p.props.label, ..self.props }),
            p.props.label matches Some(l) && l@ == s@,
    {
        ProgressBar { props: Props { label: Some(String::from_str(s)), ..self.props } }
    }
}

/// What a progress bar draws, besides the ratio it fills: the block around
/// it, the style of the gauge and its label.
pub struct GaugeView {
    pub block: Block,
    pub style: Style,
    pub label: String,
}

/// The label of a progress bar: no text unless set.
pub open spec fn label_of(props: Props) -> Seq<char> {
    match props.label {
        Some(l) => l@,
        None => seq![],
    }
}

/// The label is the one set, or no text.
pub proof fn label_is_the_value_set(props: Props)
    ensures
        props.label matches Some(l) ==> label_of(props) == l@,
        props.label is None ==> label_of(props) == Seq::<char>::empty(),
{
}

impl ProgressBar {
    /// What the progress bar draws, or nothing when it is not displayed.
    pub fn render_view(&self) -> (view: Option<GaugeView>)
        ensures
            view is Some <==> display_of(self.props),
            view matches Some(v) ==> {
                &&& v.label@ == label_of(self.props)
                &&& v.style == (Style {
                    fg: Some(foreground_of(self.props)),
                    bg: Some(background_of(self.props)),
                    add_modifier: modifiers_of(self.props),
                    sub_modifier: 0,
                })
                &&& v.block.borders == borders_of(self.props).sides
                &&& v.block.border_type == borders_of(self.props).modifiers
                &&& v.block.border_style == block_border_style(borders_of(self.props), true, None)
                &&& match self.props.title {
                    Some(t) => v.block.title@ == t.0@ && v.block.title_alignment == t.1,
                    None => v.block.title@ == Seq::<char>::empty() && v.block.title_alignment
                        == Alignment::Left,
                }
            },
    {
        let display = match self.props.display {
            Some(b) => b,
            None => true,
        };
        if !display {
            return None;
        }
        let label = match &self.props.label {
            Some(l) => l.clone(),
            None => String::new(),
        };
        let foreground = match self.props.foreground {
            Some(c) => c,
            None => Color::Reset,
        };
        let background = match self.props.background {
            Some(c) => c,
            None => Color::Reset,
        };
        let modifiers: u16 = match self.props.text_props {
            Some(m) => m,
            None => 0,
        };
        let borders = match self.props.borders {
            Some(b) => b,
            None => Borders::new(),
        };
        let title = match &self.props.title {
            Some(t) => Some((t.0.clone(), t.1)),
            None => None,
        };
        let block = get_block(borders, title, true, None);
        let style = Style::new().fg(foreground).bg(background).add_modifier(modifiers);
        proof {
            assert(0u16 | modifiers == modifiers && 0u16 & !modifiers == 0u16) by (bit_vector);
        }
        Some(GaugeView { block, style, label })
    }
}

impl Default for ProgressBar {
    fn default() -> (p: Self)
        ensures
            p.props.is_empty(),
    {
        ProgressBar { props: Props::default() }
    }
}

} // verus!
