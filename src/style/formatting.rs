use vstd::prelude::*;

use super::color::Color;
use crate::engine::{CommandBuffer, DrawOp};

verus! {

/// A text attribute applied on top of the colors.
#[derive(Clone, Copy, PartialEq, Eq, Structural, Debug)]
pub enum FormattingOption {
    Reset,
    Bold,
    Italic,
    Underline,
    CrossedOut,
}

/// Foreground and background colors plus a list of text attributes.
#[derive(Clone, Debug)]
pub struct Formatting {
    pub foreground_color: Option<Color>,
    pub background_color: Option<Color>,
    pub text_formatting: Vec<FormattingOption>,
}

/// The mathematical value of a [`Formatting`].
pub struct FormattingView {
    pub foreground_color: Option<Color>,
    pub background_color: Option<Color>,
    pub text_formatting: Seq<FormattingOption>,
}

impl View for Formatting {
    type V = FormattingView;

    open spec fn view(&self) -> FormattingView {
        FormattingView {
            foreground_color: self.foreground_color,
            background_color: self.background_color,
            text_formatting: self.text_formatting@,
        }
    }
}

/// The formatting that carries no color and no attribute.
pub open spec fn plain_formatting() -> FormattingView {
    FormattingView {
        foreground_color: None,
        background_color: None,
        text_formatting: Seq::empty(),
    }
}

/// The formatting that switches every attribute off.
pub open spec fn reset_formatting() -> FormattingView {
    FormattingView {
        foreground_color: None,
        background_color: None,
        text_formatting: seq![FormattingOption::Reset],
    }
}

impl Default for Formatting {
    fn default() -> (r: Self)
        ensures
            r@ == plain_formatting(),
    {
        Formatting { foreground_color: None, background_color: None, text_formatting: Vec::new() }
    }
}

impl Formatting {
    /// An equal formatting, owned separately.
    pub fn duplicate(&self) -> (r: Self)
        ensures
            r@ == self@,
    {
        let attrs = self.text_formatting.clone();
        assert(attrs@ =~= self.text_formatting@);
        Formatting {
            foreground_color: self.foreground_color,
            background_color: self.background_color,
            text_formatting: attrs,
        }
    }

    /// The formatting that switches every attribute off.
    pub fn reset() -> (r: Self)
        ensures
            r@ == reset_formatting(),
    {
        let mut f = Self::default();
        f.text_formatting.push(FormattingOption::Reset);
        assert(f.text_formatting@ =~= seq![FormattingOption::Reset]);
        f
    }

    pub fn foreground_color(self, color: Color) -> (r: Self)
        ensures
            r@ == (FormattingView { foreground_color: Some(color), ..self@ }),
    {
        let mut f = self;
        f.foreground_color = Some(color);
        f
    }

    pub fn background_color(self, color: Color) -> (r: Self)
        ensures
            r@ == (FormattingView { background_color: Some(color), ..self@ }),
    {
        let mut f = self;
        f.background_color = Some(color);
        f
    }

    pub fn bold(self) -> (r: Self)
        ensures
            r@ == self@.with_attribute(FormattingOption::Bold),
    {
        self.with_attribute(FormattingOption::Bold)
    }

    pub fn italic(self) -> (r: Self)
        ensures
            r@ == self@.with_attribute(FormattingOption::Italic),
    {
        self.with_attribute(FormattingOption::Italic)
    }

    pub fn underline(self) -> (r: Self)
        ensures
            r@ == self@.with_attribute(FormattingOption::Underline),
    {
        self.with_attribute(FormattingOption::Underline)
    }

    pub fn crossed_out(self) -> (r: Self)
        ensures
            r@ == self@.with_attribute(FormattingOption::CrossedOut),
    {
        self.with_attribute(FormattingOption::CrossedOut)
    }

    fn with_attribute(self, attribute: FormattingOption) -> (r: Self)
        ensures
            r@ == self@.with_attribute(attribute),
    {
        let mut f = self;
        f.text_formatting.push(attribute);
        f
    }

    /// Prints `text` in this formatting, then resets the formatting.
    pub fn print<B: CommandBuffer>(&self, text: &str, cmd_buffer: &mut B)
        ensures
            final(cmd_buffer).ops() == old(cmd_buffer).ops() + formatted_text(self@, text@),
    {
        cmd_buffer.set_formatting(self);
        cmd_buffer.print(text);
        cmd_buffer.reset_formatting();
        assert(cmd_buffer.ops() =~= old(cmd_buffer).ops() + formatted_text(self@, text@));
    }
}

impl FormattingView {
    /// This formatting with one more attribute at the end of its list.
    pub open spec fn with_attribute(self, attribute: FormattingOption) -> FormattingView {
        FormattingView { text_formatting: self.text_formatting.push(attribute), ..self }
    }
}

/// The operations that print `text` in formatting `f` and reset the formatting afterwards.
pub open spec fn formatted_text(f: FormattingView, text: Seq<char>) -> Seq<DrawOp> {
    seq![DrawOp::SetFormatting(f), DrawOp::Print(text), DrawOp::SetFormatting(reset_formatting())]
}

} // verus!
