use vstd::prelude::*;

use crate::style::formatting::{reset_formatting, Formatting, FormattingView};

pub mod crossterm;

pub use self::crossterm::{CrosstermCommandBuffer, CrosstermEngine, DrawCommand, TerminalCommand, TerminalOp};

verus! {

/// One drawing operation of a frame, as a value.
pub enum DrawOp {
    /// Start a new line.
    NewLine,
    /// Print literal text.
    Print(Seq<char>),
    /// Switch to the given colors and attributes.
    SetFormatting(FormattingView),
}

/// The number of line breaks among `ops`.
pub open spec fn line_breaks(ops: Seq<DrawOp>) -> nat
    decreases ops.len(),
{
    if ops.len() == 0 {
        0
    } else {
        line_breaks(ops.drop_last()) + if ops.last() is NewLine {
            1nat
        } else {
            0nat
        }
    }
}

/// The number of screen lines that `ops` occupy once replayed.
pub open spec fn lines_count(ops: Seq<DrawOp>) -> nat {
    line_breaks(ops) + 1
}

/// A write-only sink of drawing operations.
pub trait CommandBuffer {
    /// The operations recorded so far, oldest first.
    spec fn ops(&self) -> Seq<DrawOp>;

    fn new_line(&mut self)
        ensures
            final(self).ops() == old(self).ops().push(DrawOp::NewLine),
    ;

    fn print(&mut self, text: &str)
        ensures
            final(self).ops() == old(self).ops().push(DrawOp::Print(text@)),
    ;

    fn set_formatting(&mut self, formatting: &Formatting)
        ensures
            final(self).ops() == old(self).ops().push(DrawOp::SetFormatting(formatting@)),
    ;

    fn reset_formatting(&mut self)
        ensures
            final(self).ops() == old(self).ops().push(DrawOp::SetFormatting(reset_formatting())),
    ;
}

/// A sink that can drop everything recorded so far.
pub trait Clear: CommandBuffer {
    fn clear(&mut self)
        ensures
            final(self).ops() == Seq::<DrawOp>::empty(),
    ;
}

/// A renderer that replays command buffers onto a terminal, replacing the previous frame.
pub trait Engine {
    type Buffer: CommandBuffer + Clear;

    /// The number of lines that the last rendered frame occupies.
    spec fn previous_line_count(&self) -> nat;

    fn get_command_buffer(&self) -> (r: Self::Buffer)
        ensures
            r.ops() == Seq::<DrawOp>::empty(),
    ;

    fn render(&mut self, render_commands: &Self::Buffer)
        ensures
            final(self).previous_line_count() == lines_count(render_commands.ops()),
    ;

    fn finish_rendering(&mut self)
        ensures
            final(self).previous_line_count() == old(self).previous_line_count(),
    ;
}

} // verus!
