use vstd::prelude::*;

use super::color::Color;
use super::formatting::{plain_formatting, Formatting};
use super::label_style::{colored, default_label_style, LabelStyle};

verus! {

/// The look of a yes/no prompt.
pub struct ConfirmationStyle {
    pub label_style: LabelStyle,
    pub input_formatting: Formatting,
    pub submitted_formatting: Formatting,
}

/// Whether `s` is the style that confirmations get unless another one is given.
pub open spec fn is_default_confirmation_style(s: ConfirmationStyle) -> bool {
    &&& s.label_style@ == default_label_style()
    &&& s.input_formatting@ == plain_formatting()
    &&& s.submitted_formatting@ == colored(Color::Green)
}

impl Default for ConfirmationStyle {
    fn default() -> (r: Self)
        ensures
            is_default_confirmation_style(r),
    {
        ConfirmationStyle {
            label_style: LabelStyle::default(),
            input_formatting: Formatting::default(),
            submitted_formatting: Formatting::default().foreground_color(Color::Green),
        }
    }
}

impl ConfirmationStyle {
    pub fn label_style(self, l: LabelStyle) -> (r: Self)
        ensures
            r == (ConfirmationStyle { label_style: l, ..self }),
    {
        ConfirmationStyle { label_style: l, ..self }
    }

    pub fn input_formatting(self, f: Formatting) -> (r: Self)
        ensures
            r == (ConfirmationStyle { input_formatting: f, ..self }),
    {
        ConfirmationStyle { input_formatting: f, ..self }
    }

    pub fn submitted_formatting(self, f: Formatting) -> (r: Self)
        ensures
            r == (ConfirmationStyle { submitted_formatting: f, ..self }),
    {
        ConfirmationStyle { submitted_formatting: f, ..self }
    }
}

} // verus!
