use vstd::prelude::*;
use vstd::string::*;

use super::color::Color;
use super::formatting::{plain_formatting, reset_formatting, Formatting};
use super::label_style::{colored, default_label_style, LabelStyle};
use crate::engine::{CommandBuffer, DrawOp};

verus! {

/// The look of a multiple-choice prompt.
pub struct MultiselectionStyle {
    pub label_style: LabelStyle,
    pub submitted_formatting: Formatting,
    pub filter_formatting: Formatting,
    pub help_message_formatting: Formatting,
    pub marker: Marker,
    pub highlighted_option_formatting: Formatting,
    pub normal_option_formatting: Formatting,
}

/// The check box drawn in front of an option: an opening sign, the selection sign or a blank,
/// and a closing sign.
pub struct Marker {
    pub opening_sign: String,
    pub closing_sign: String,
    pub selection_sign: String,
}

impl Marker {
    /// The text of the check box.
    pub open spec fn box_text(&self, is_selected: bool) -> Seq<char> {
        self.opening_sign@ + (if is_selected {
            self.selection_sign@
        } else {
            seq![' ']
        }) + self.closing_sign@
    }

    /// Draws the check box, ticked when `is_selected`.
    pub fn print<B: CommandBuffer>(&self, is_selected: bool, commands: &mut B)
        ensures
            final(commands).ops() == old(commands).ops().push(
                DrawOp::Print(self.box_text(is_selected)),
            ),
    {
        let blank = " ";
        proof {
            reveal_strlit(" ");
        }
        assert(blank@ =~= seq![' ']);
        let sign = if is_selected {
            self.selection_sign.as_str()
        } else {
            blank
        };
        let mut text = self.opening_sign.clone();
        text.append(sign);
        text.append(self.closing_sign.as_str());
        commands.print(text.as_str());
    }
}

/// Whether `s` is the style that multiple-choice prompts get unless another one is given.
pub open spec fn is_default_multiselection_style(s: MultiselectionStyle) -> bool {
    &&& s.label_style@ == default_label_style()
    &&& s.submitted_formatting@ == colored(Color::Green)
    &&& s.filter_formatting@ == plain_formatting()
    &&& s.help_message_formatting@ == colored(Color::DarkGreen)
    &&& s.marker.opening_sign@ == seq!['[']
    &&& s.marker.selection_sign@ == seq!['x']
    &&& s.marker.closing_sign@ == seq![']']
    &&& s.highlighted_option_formatting@ == colored(Color::DarkGreen)
    &&& s.normal_option_formatting@ == plain_formatting()
}

impl Default for MultiselectionStyle {
    fn default() -> (r: Self)
        ensures
            is_default_multiselection_style(r),
    {
        let open = "[";
        let tick = "x";
        let close = "]";
        proof {
            reveal_strlit("[");
            reveal_strlit("x");
            reveal_strlit("]");
        }
        let r = MultiselectionStyle {
            label_style: LabelStyle::default(),
            submitted_formatting: Formatting::default().foreground_color(Color::Green),
            filter_formatting: Formatting::default(),
            help_message_formatting: Formatting::default().foreground_color(Color::DarkGreen),
            marker: Marker {
                opening_sign: open.to_owned(),
                selection_sign: tick.to_owned(),
                closing_sign: close.to_owned(),
            },
            highlighted_option_formatting: Formatting::default().foreground_color(Color::DarkGreen),
            normal_option_formatting: Formatting::default(),
        };
        assert(r.marker.opening_sign@ =~= seq!['[']);
        assert(r.marker.selection_sign@ =~= seq!['x']);
        assert(r.marker.closing_sign@ =~= seq![']']);
        r
    }
}

impl MultiselectionStyle {
    /// The operations that draw one option row.
    pub open spec fn option_ops(
        &self,
        option_text: Seq<char>,
        is_selected: bool,
        is_highlighted: bool,
    ) -> Seq<DrawOp> {
        let formatting = if is_highlighted {
            self.highlighted_option_formatting@
        } else {
            self.normal_option_formatting@
        };
        seq![
            DrawOp::SetFormatting(formatting),
            DrawOp::Print(self.marker.box_text(is_selected)),
            DrawOp::Print(seq![' ']),
            DrawOp::Print(option_text),
            DrawOp::SetFormatting(reset_formatting()),
        ]
    }

    /// Draws one option row: its check box and text, in the highlighted formatting when
    /// `is_highlighted`.
    pub fn print_option<B: CommandBuffer>(
        &self,
        option_text: &str,
        is_selected: bool,
        is_highlighted: bool,
        commands: &mut B,
    )
        ensures
            final(commands).ops() == old(commands).ops() + self.option_ops(
                option_text@,
                is_selected,
                is_highlighted,
            ),
    {
        let space = " ";
        proof {
            reveal_strlit(" ");
        }
        let formatting = if is_highlighted {
            &self.highlighted_option_formatting
        } else {
            &self.normal_option_formatting
        };
        commands.set_formatting(formatting);
        self.marker.print(is_selected, commands);
        commands.print(space);
        commands.print(option_text);
        commands.reset_formatting();
        assert(space@ =~= seq![' ']);
        assert(commands.ops() =~= old(commands).ops() + self.option_ops(
            option_text@,
            is_selected,
            is_highlighted,
        ));
    }
}

} // verus!
