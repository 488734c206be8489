use vstd::prelude::*;

use super::color::Color;
use super::formatting::{formatted_text, plain_formatting, reset_formatting, Formatting, FormattingOption, FormattingView};
use crate::engine::{CommandBuffer, DrawOp};

verus! {

/// How the label line of a prompt starts: a prefix sign and the prompt text, each in its own
/// formatting.
pub struct LabelStyle {
    prefix: String,
    prefix_formatting: Formatting,
    prompt_formatting: Formatting,
}

/// The value of a [`LabelStyle`].
pub struct LabelStyleView {
    pub prefix: Seq<char>,
    pub prefix_formatting: FormattingView,
    pub prompt_formatting: FormattingView,
}

impl View for LabelStyle {
    type V = LabelStyleView;

    closed spec fn view(&self) -> LabelStyleView {
        LabelStyleView {
            prefix: self.prefix@,
            prefix_formatting: self.prefix_formatting@,
            prompt_formatting: self.prompt_formatting@,
        }
    }
}

/// Plain formatting in the given foreground color.
pub open spec fn colored(color: Color) -> FormattingView {
    FormattingView { foreground_color: Some(color), ..plain_formatting() }
}

/// Plain formatting in bold.
pub open spec fn bold_formatting() -> FormattingView {
    plain_formatting().with_attribute(FormattingOption::Bold)
}

/// The label style of every prompt unless another one is given.
pub open spec fn default_label_style() -> LabelStyleView {
    LabelStyleView {
        prefix: seq!['?'],
        prefix_formatting: FormattingView {
            foreground_color: Some(Color::Green),
            ..bold_formatting()
        },
        prompt_formatting: bold_formatting(),
    }
}

/// The operations that draw a label of text `text` in style `s`: the prefix in its formatting,
/// a space, then the text followed by a colon in the prompt formatting, then a space.
pub open spec fn label_ops(s: LabelStyleView, text: Seq<char>) -> Seq<DrawOp> {
    formatted_text(s.prefix_formatting, s.prefix) + seq![
        DrawOp::Print(seq![' ']),
        DrawOp::SetFormatting(s.prompt_formatting),
        DrawOp::Print(text),
        DrawOp::Print(seq![':']),
        DrawOp::SetFormatting(reset_formatting()),
        DrawOp::Print(seq![' ']),
    ]
}

impl Default for LabelStyle {
    fn default() -> (r: Self)
        ensures
            r@ == default_label_style(),
    {
        let prefix = "?".to_owned();
        proof {
            reveal_strlit("?");
        }
        assert(prefix@ =~= seq!['?']);
        let r = LabelStyle {
            prefix,
            prefix_formatting: Formatting::default().bold().foreground_color(Color::Green),
            prompt_formatting: Formatting::default().bold(),
        };
        assert(r@.prefix_formatting.text_formatting =~= seq![FormattingOption::Bold]);
        r
    }
}

impl LabelStyle {
    pub fn prefix(self, p: &str) -> (r: Self)
        ensures
            r@ == (LabelStyleView { prefix: p@, ..self@ }),
    {
        let mut s = self;
        s.prefix = p.to_owned();
        s
    }

    pub fn prefix_formatting(self, f: Formatting) -> (r: Self)
        ensures
            r@ == (LabelStyleView { prefix_formatting: f@, ..self@ }),
    {
        let mut s = self;
        s.prefix_formatting = f;
        s
    }

    pub fn prompt_formatting(self, f: Formatting) -> (r: Self)
        ensures
            r@ == (LabelStyleView { prompt_formatting: f@, ..self@ }),
    {
        let mut s = self;
        s.prompt_formatting = f;
        s
    }

    /// Draws the label `text` in this style.
    pub fn print<B: CommandBuffer>(&self, text: &str, cmd_buffer: &mut B)
        ensures
            final(cmd_buffer).ops() == old(cmd_buffer).ops() + label_ops(self@, text@),
    {
        let space = " ";
        let colon = ":";
        proof {
            reveal_strlit(" ");
            reveal_strlit(":");
        }
        cmd_buffer.set_formatting(&self.prefix_formatting);
        cmd_buffer.print(self.prefix.as_str());
        cmd_buffer.reset_formatting();
        cmd_buffer.print(space);
        cmd_buffer.set_formatting(&self.prompt_formatting);
        cmd_buffer.print(text);
        cmd_buffer.print(colon);
        cmd_buffer.reset_formatting();
        cmd_buffer.print(space);
        assert(space@ =~= seq![' ']);
        assert(colon@ =~= seq![':']);
        assert(cmd_buffer.ops() =~= old(cmd_buffer).ops() + label_ops(self@, text@));
    }

    /// Draws the label `text` in this style; the same as [`LabelStyle::print`].
    pub fn print_cmd<B: CommandBuffer>(&self, text: &str, cmd_buffer: &mut B)
        ensures
            final(cmd_buffer).ops() == old(cmd_buffer).ops() + label_ops(self@, text@),
    {
        self.print(text, cmd_buffer)
    }
}

} // verus!
