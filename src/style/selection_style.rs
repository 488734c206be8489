use vstd::prelude::*;

use super::color::Color;
use super::formatting::{formatted_text, plain_formatting, Formatting};
use super::label_style::{bold_formatting, colored, default_label_style, LabelStyle};
use crate::engine::CommandBuffer;

verus! {

/// A sign drawn in front of an option of a single-choice list.
pub struct Marker {
    pub marker: String,
    pub formatting: Formatting,
}

/// The look of a single-choice prompt.
pub struct SelectionStyle {
    pub label_style: LabelStyle,
    pub submitted_formatting: Formatting,
    pub option_formatting: Formatting,
    pub selected_option_formatting: Formatting,
    pub filter_formatting: Formatting,
    pub not_selected_marker: Marker,
    pub selected_marker: Marker,
}

/// Whether `s` is the style that single-choice prompts get unless another one is given.
pub open spec fn is_default_selection_style(s: SelectionStyle) -> bool {
    &&& s.label_style@ == default_label_style()
    &&& s.submitted_formatting@ == colored(Color::Green)
    &&& s.option_formatting@ == plain_formatting()
    &&& s.selected_option_formatting@ == bold_formatting()
    &&& s.filter_formatting@ == plain_formatting()
    &&& s.not_selected_marker.marker@ == seq![' ', ' ']
    &&& s.not_selected_marker.formatting@ == plain_formatting()
    &&& s.selected_marker.marker@ == seq!['>', ' ']
    &&& s.selected_marker.formatting@ == bold_formatting()
}

impl Default for SelectionStyle {
    fn default() -> (r: Self)
        ensures
            is_default_selection_style(r),
    {
        let blank = "  ";
        let arrow = "> ";
        proof {
            reveal_strlit("  ");
            reveal_strlit("> ");
        }
        let r = SelectionStyle {
            label_style: LabelStyle::default(),
            submitted_formatting: Formatting::default().foreground_color(Color::Green),
            option_formatting: Formatting::default(),
            selected_option_formatting: Formatting::default().bold(),
            filter_formatting: Formatting::default(),
            not_selected_marker: Marker { marker: blank.to_owned(), formatting: Formatting::default() },
            selected_marker: Marker { marker: arrow.to_owned(), formatting: Formatting::default().bold() },
        };
        assert(r.not_selected_marker.marker@ =~= seq![' ', ' ']);
        assert(r.selected_marker.marker@ =~= seq!['>', ' ']);
        r
    }
}

impl SelectionStyle {
    pub fn label_style(self, l: LabelStyle) -> (r: Self)
        ensures
            r == (SelectionStyle { label_style: l, ..self }),
    {
        SelectionStyle { label_style: l, ..self }
    }

    pub fn submitted_formatting(self, f: Formatting) -> (r: Self)
        ensures
            r == (SelectionStyle { submitted_formatting: f, ..self }),
    {
        SelectionStyle { submitted_formatting: f, ..self }
    }

    pub fn option_formatting(self, f: Formatting) -> (r: Self)
        ensures
            r == (SelectionStyle { option_formatting: f, ..self }),
    {
        SelectionStyle { option_formatting: f, ..self }
    }

    pub fn not_selected_marker(self, m: Marker) -> (r: Self)
        ensures
            r == (SelectionStyle { not_selected_marker: m, ..self }),
    {
        SelectionStyle { not_selected_marker: m, ..self }
    }

    pub fn selected_marker(self, m: Marker) -> (r: Self)
        ensures
            r == (SelectionStyle { selected_marker: m, ..self }),
    {
        SelectionStyle { selected_marker: m, ..self }
    }
}

impl Marker {
    /// Draws the marker sign in its formatting.
    pub fn print<B: CommandBuffer>(&self, cmd_buffer: &mut B)
        ensures
            final(cmd_buffer).ops() == old(cmd_buffer).ops() + formatted_text(
                self.formatting@,
                self.marker@,
            ),
    {
        self.formatting.print(self.marker.as_str(), cmd_buffer)
    }
}

} // verus!
