use vstd::prelude::*;

use super::color::Color;
use super::formatting::{plain_formatting, Formatting};
use super::label_style::{colored, default_label_style, LabelStyle};

verus! {

/// The look of an input prompt.
pub struct InputStyle {
    pub label_style: LabelStyle,
    pub default_value_formatting: Formatting,
    pub error_formatting: Formatting,
    pub input_formatting: Formatting,
    pub submitted_formatting: Formatting,
    pub help_message_formatting: Formatting,
}

/// Whether `s` is the style that input prompts get unless another one is given.
pub open spec fn is_default_input_style(s: InputStyle) -> bool {
    &&& s.label_style@ == default_label_style()
    &&& s.default_value_formatting@ == colored(Color::Grey)
    &&& s.error_formatting@ == colored(Color::Red)
    &&& s.input_formatting@ == plain_formatting()
    &&& s.submitted_formatting@ == colored(Color::Green)
    &&& s.help_message_formatting@ == colored(Color::DarkGreen)
}

impl Default for InputStyle {
    fn default() -> (r: Self)
        ensures
            is_default_input_style(r),
    {
        InputStyle {
            label_style: LabelStyle::default(),
            default_value_formatting: Formatting::default().foreground_color(Color::Grey),
            error_formatting: Formatting::default().foreground_color(Color::Red),
            input_formatting: Formatting::default(),
            submitted_formatting: Formatting::default().foreground_color(Color::Green),
            help_message_formatting: Formatting::default().foreground_color(Color::DarkGreen),
        }
    }
}

impl InputStyle {
    pub fn label_style(self, l: LabelStyle) -> (r: Self)
        ensures
            r == (InputStyle { label_style: l, ..self }),
    {
        InputStyle { label_style: l, ..self }
    }

    pub fn default_value_formatting(self, f: Formatting) -> (r: Self)
        ensures
            r == (InputStyle { default_value_formatting: f, ..self }),
    {
        InputStyle { default_value_formatting: f, ..self }
    }

    pub fn error_formatting(self, f: Formatting) -> (r: Self)
        ensures
            r == (InputStyle { error_formatting: f, ..self }),
    {
        InputStyle { error_formatting: f, ..self }
    }

    pub fn input_formatting(self, f: Formatting) -> (r: Self)
        ensures
            r == (InputStyle { input_formatting: f, ..self }),
    {
        InputStyle { input_formatting: f, ..self }
    }

    pub fn submitted_formatting(self, f: Formatting) -> (r: Self)
        ensures
            r == (InputStyle { submitted_formatting: f, ..self }),
    {
        InputStyle { submitted_formatting: f, ..self }
    }

    pub fn help_message_formatting(self, f: Formatting) -> (r: Self)
        ensures
            r == (InputStyle { help_message_formatting: f, ..self }),
    {
        InputStyle { help_message_formatting: f, ..self }
    }
}

} // verus!
