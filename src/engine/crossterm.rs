use vstd::prelude::*;

use crate::style::formatting::{reset_formatting, Formatting};

use super::{line_breaks, lines_count, Clear, CommandBuffer, DrawOp, Engine};

verus! {

/// One recorded drawing operation.
#[derive(Debug)]
pub enum DrawCommand {
    NewLine,
    Print(String),
    SetFormatting(Formatting),
}

impl View for DrawCommand {
    type V = DrawOp;

    open spec fn view(&self) -> DrawOp {
        match self {
            DrawCommand::NewLine => DrawOp::NewLine,
            DrawCommand::Print(text) => DrawOp::Print(text@),
            DrawCommand::SetFormatting(f) => DrawOp::SetFormatting(f@),
        }
    }
}

impl DrawCommand {
    /// An equal command, owned separately.
    pub fn duplicate(&self) -> (r: Self)
        ensures
            r@ == self@,
    {
        match self {
            DrawCommand::NewLine => DrawCommand::NewLine,
            DrawCommand::Print(text) => DrawCommand::Print(text.clone()),
            DrawCommand::SetFormatting(f) => DrawCommand::SetFormatting(f.duplicate()),
        }
    }
}

/// One operation on the terminal, as the engine emits it.
#[derive(Debug)]
pub enum TerminalCommand {
    /// Erase the line that holds the cursor.
    ClearCurrentLine,
    /// Move the cursor one line up.
    MoveToPreviousLine,
    /// Move the cursor to the first column of its line.
    MoveToLineStart,
    /// Replay a drawing operation.
    Draw(DrawCommand),
}

/// The value of a [`TerminalCommand`].
pub enum TerminalOp {
    ClearCurrentLine,
    MoveToPreviousLine,
    MoveToLineStart,
    Draw(DrawOp),
}

impl View for TerminalCommand {
    type V = TerminalOp;

    open spec fn view(&self) -> TerminalOp {
        match self {
            TerminalCommand::ClearCurrentLine => TerminalOp::ClearCurrentLine,
            TerminalCommand::MoveToPreviousLine => TerminalOp::MoveToPreviousLine,
            TerminalCommand::MoveToLineStart => TerminalOp::MoveToLineStart,
            TerminalCommand::Draw(c) => TerminalOp::Draw(c@),
        }
    }
}

/// The operations that erase the `n` lines of a frame, from its last line upwards:
/// each line is cleared, and the cursor moves up between two lines.
pub open spec fn erase_lines(n: nat) -> Seq<TerminalOp>
    decreases n,
{
    if n <= 1 {
        seq![TerminalOp::ClearCurrentLine]
    } else {
        erase_lines((n - 1) as nat) + seq![
            TerminalOp::MoveToPreviousLine,
            TerminalOp::ClearCurrentLine,
        ]
    }
}

/// The drawing operations of a frame, as terminal operations.
pub open spec fn replay(ops: Seq<DrawOp>) -> Seq<TerminalOp> {
    ops.map_values(|op: DrawOp| TerminalOp::Draw(op))
}

/// What rendering a frame of `ops` emits when the previous frame occupied `previous` lines.
pub open spec fn render_output(previous: nat, ops: Seq<DrawOp>) -> Seq<TerminalOp> {
    erase_lines(previous) + seq![TerminalOp::MoveToLineStart] + replay(ops)
}

/// The views of a sequence of commands.
pub open spec fn command_views(cmds: Seq<DrawCommand>) -> Seq<DrawOp> {
    cmds.map_values(|c: DrawCommand| c@)
}

/// The views of a sequence of terminal commands.
pub open spec fn terminal_views(cmds: Seq<TerminalCommand>) -> Seq<TerminalOp> {
    cmds.map_values(|c: TerminalCommand| c@)
}

/// A terminal renderer. It erases exactly the lines of the previous frame, replays the new one,
/// and queues the resulting terminal operations until they are taken to be written out.
pub struct CrosstermEngine {
    output: Vec<TerminalCommand>,
    previous_line_breaks: usize,
}

/// A command buffer that records operations for a [`CrosstermEngine`].
pub struct CrosstermCommandBuffer {
    commands: Vec<DrawCommand>,
}

impl CrosstermEngine {
    /// The terminal operations queued and not yet taken.
    pub closed spec fn pending(&self) -> Seq<TerminalOp> {
        terminal_views(self.output@)
    }

    pub closed spec fn spec_previous_line_count(&self) -> nat {
        self.previous_line_breaks as nat + 1
    }

    pub fn new() -> (r: Self)
        ensures
            r.pending() == Seq::<TerminalOp>::empty(),
            r.spec_previous_line_count() == 1,
    {
        let r = CrosstermEngine { output: Vec::new(), previous_line_breaks: 0 };
        assert(r.pending() =~= Seq::<TerminalOp>::empty());
        r
    }

    /// Hands out the queued terminal operations, oldest first, and empties the queue.
    pub fn take_output(&mut self) -> (r: Vec<TerminalCommand>)
        ensures
            terminal_views(r@) == old(self).pending(),
            final(self).pending() == Seq::<TerminalOp>::empty(),
            final(self).spec_previous_line_count() == old(self).spec_previous_line_count(),
    {
        let mut r = Vec::new();
        r.append(&mut self.output);
        assert(self.pending() =~= Seq::<TerminalOp>::empty());
        r
    }
}

impl Engine for CrosstermEngine {
    type Buffer = CrosstermCommandBuffer;

    open spec fn previous_line_count(&self) -> nat {
        self.spec_previous_line_count()
    }

    fn get_command_buffer(&self) -> (r: CrosstermCommandBuffer) {
        CrosstermCommandBuffer::new()
    }

    fn render(&mut self, render_commands: &CrosstermCommandBuffer)
        ensures
            final(self).pending() == old(self).pending() + render_output(
                old(self).previous_line_count(),
                render_commands.ops(),
            ),
    {
        let ghost start = self.pending();
        let n = self.previous_line_breaks;
        self.output.push(TerminalCommand::ClearCurrentLine);
        let mut i: usize = 0;
        assert(self.pending() =~= start + erase_lines(1));
        while i < n
            invariant
                i <= n,
                self.pending() == start + erase_lines(i as nat + 1),
            decreases n - i,
        {
            let ghost before = self.pending();
            self.output.push(TerminalCommand::MoveToPreviousLine);
            self.output.push(TerminalCommand::ClearCurrentLine);
            assert(self.pending() =~= before + seq![
                TerminalOp::MoveToPreviousLine,
                TerminalOp::ClearCurrentLine,
            ]);
            i = i + 1;
            assert(erase_lines(i as nat + 1) == erase_lines(i as nat) + seq![
                TerminalOp::MoveToPreviousLine,
                TerminalOp::ClearCurrentLine,
            ]);
        }
        self.output.push(TerminalCommand::MoveToLineStart);
        let ghost erased = self.pending();
        let ghost ops = render_commands.ops();
        assert(erased =~= start + erase_lines(n as nat + 1) + seq![TerminalOp::MoveToLineStart]);
        let mut breaks: usize = 0;
        let mut j: usize = 0;
        while j < render_commands.commands.len()
            invariant
                j <= render_commands.commands@.len(),
                ops == command_views(render_commands.commands@),
                breaks <= j,
                breaks == line_breaks(ops.take(j as int)),
                self.pending() == erased + replay(ops.take(j as int)),
            decreases render_commands.commands@.len() - j,
        {
            let ghost before = self.pending();
            let c = render_commands.commands[j].duplicate();
            let is_break = matches!(c, DrawCommand::NewLine);
            self.output.push(TerminalCommand::Draw(c));
            assert(self.pending() =~= before.push(TerminalOp::Draw(ops[j as int])));
            if is_break {
                breaks = breaks + 1;
            }
            assert(ops.take(j as int + 1).drop_last() =~= ops.take(j as int));
            assert(replay(ops.take(j as int + 1)) =~= replay(ops.take(j as int)).push(
                TerminalOp::Draw(ops[j as int]),
            ));
            j = j + 1;
        }
        assert(ops.take(j as int) =~= ops);
        self.previous_line_breaks = breaks;
    }

    fn finish_rendering(&mut self)
        ensures
            final(self).pending() == old(self).pending().push(TerminalOp::Draw(DrawOp::NewLine)),
    {
        self.output.push(TerminalCommand::Draw(DrawCommand::NewLine));
        assert(self.pending() =~= old(self).pending().push(TerminalOp::Draw(DrawOp::NewLine)));
    }
}

impl CrosstermCommandBuffer {
    pub fn new() -> (r: Self)
        ensures
            r.ops() == Seq::<DrawOp>::empty(),
    {
        let r = CrosstermCommandBuffer { commands: Vec::new() };
        assert(r.ops() =~= Seq::<DrawOp>::empty());
        r
    }

    /// The recorded operations, oldest first.
    pub fn commands(&self) -> (r: &Vec<DrawCommand>)
        ensures
            command_views(r@) == self.ops(),
    {
        &self.commands
    }
}

impl CommandBuffer for CrosstermCommandBuffer {
    closed spec fn ops(&self) -> Seq<DrawOp> {
        command_views(self.commands@)
    }

    fn new_line(&mut self) {
        self.commands.push(DrawCommand::NewLine);
        assert(self.ops() =~= old(self).ops().push(DrawOp::NewLine));
    }

    fn print(&mut self, text: &str) {
        self.commands.push(DrawCommand::Print(text.to_owned()));
        assert(self.ops() =~= old(self).ops().push(DrawOp::Print(text@)));
    }

    fn set_formatting(&mut self, formatting: &Formatting) {
        self.commands.push(DrawCommand::SetFormatting(formatting.duplicate()));
        assert(self.ops() =~= old(self).ops().push(DrawOp::SetFormatting(formatting@)));
    }

    fn reset_formatting(&mut self) {
        self.commands.push(DrawCommand::SetFormatting(Formatting::reset()));
        assert(self.ops() =~= old(self).ops().push(DrawOp::SetFormatting(reset_formatting())));
    }
}

impl Clear for CrosstermCommandBuffer {
    fn clear(&mut self) {
        self.commands.clear();
        assert(self.ops() =~= Seq::<DrawOp>::empty());
    }
}

/// The number of line clears among `ops`.
pub open spec fn cleared_lines(ops: Seq<TerminalOp>) -> nat
    decreases ops.len(),
{
    if ops.len() == 0 {
        0
    } else {
        cleared_lines(ops.drop_last()) + if ops.last() is ClearCurrentLine {
            1nat
        } else {
            0nat
        }
    }
}

/// The number of upward cursor moves among `ops`.
pub open spec fn moves_up(ops: Seq<TerminalOp>) -> nat
    decreases ops.len(),
{
    if ops.len() == 0 {
        0
    } else {
        moves_up(ops.drop_last()) + if ops.last() is MoveToPreviousLine {
            1nat
        } else {
            0nat
        }
    }
}

proof fn lemma_cleared_lines_append(a: Seq<TerminalOp>, b: Seq<TerminalOp>)
    ensures
        cleared_lines(a + b) == cleared_lines(a) + cleared_lines(b),
        moves_up(a + b) == moves_up(a) + moves_up(b),
    decreases b.len(),
{
    if b.len() > 0 {
        lemma_cleared_lines_append(a, b.drop_last());
        assert((a + b).drop_last() =~= a + b.drop_last());
    } else {
        assert(a + b =~= a);
    }
}

proof fn lemma_erase_counts(n: nat)
    requires
        n >= 1,
    ensures
        cleared_lines(erase_lines(n)) == n,
        moves_up(erase_lines(n)) == n - 1,
    decreases n,
{
    if n > 1 {
        lemma_erase_counts((n - 1) as nat);
        let tail = seq![TerminalOp::MoveToPreviousLine, TerminalOp::ClearCurrentLine];
        lemma_cleared_lines_append(erase_lines((n - 1) as nat), tail);
        let head = seq![TerminalOp::MoveToPreviousLine];
        assert(tail.drop_last() =~= head);
        assert(head.drop_last() =~= Seq::<TerminalOp>::empty());
        assert(head.last() is MoveToPreviousLine);
        assert(cleared_lines(head.drop_last()) == 0);
        assert(moves_up(head.drop_last()) == 0);
        assert(cleared_lines(head) == 0);
        assert(moves_up(head) == 1);
        assert(tail.last() is ClearCurrentLine);
        assert(cleared_lines(tail) == 1);
        assert(moves_up(tail) == 1);
    } else {
        assert(erase_lines(1).drop_last() =~= Seq::<TerminalOp>::empty());
        assert(cleared_lines(erase_lines(1).drop_last()) == 0);
        assert(moves_up(erase_lines(1).drop_last()) == 0);
    }
}

proof fn lemma_replay_clears_nothing(ops: Seq<DrawOp>)
    ensures
        cleared_lines(replay(ops)) == 0,
        moves_up(replay(ops)) == 0,
    decreases ops.len(),
{
    if ops.len() > 0 {
        lemma_replay_clears_nothing(ops.drop_last());
        assert(replay(ops).drop_last() =~= replay(ops.drop_last()));
    } else {
        assert(replay(ops) =~= Seq::<TerminalOp>::empty());
    }
}

/// Rendering an M-line frame after an N-line frame first erases exactly N lines, moving up
/// once between two of them, then returns to the start of the line and replays the new frame,
/// which erases nothing; the engine then counts M lines.
pub proof fn render_erases_previous_frame(
    e0: CrosstermEngine,
    e1: CrosstermEngine,
    e2: CrosstermEngine,
    first: Seq<DrawOp>,
    second: Seq<DrawOp>,
)
    requires
        e1.pending() == e0.pending() + render_output(e0.spec_previous_line_count(), first),
        e1.spec_previous_line_count() == lines_count(first),
        e2.pending() == e1.pending() + render_output(e1.spec_previous_line_count(), second),
        e2.spec_previous_line_count() == lines_count(second),
    ensures
        e2.pending() == e1.pending() + erase_lines(lines_count(first)) + seq![TerminalOp::MoveToLineStart]
            + replay(second),
        cleared_lines(erase_lines(lines_count(first))) == lines_count(first),
        moves_up(erase_lines(lines_count(first))) == lines_count(first) - 1,
        cleared_lines(seq![TerminalOp::MoveToLineStart] + replay(second)) == 0,
        e2.spec_previous_line_count() == lines_count(second),
{
    lemma_erase_counts(lines_count(first));
    lemma_replay_clears_nothing(second);
    lemma_cleared_lines_append(seq![TerminalOp::MoveToLineStart], replay(second));
    let start = seq![TerminalOp::MoveToLineStart];
    assert(start.drop_last() =~= Seq::<TerminalOp>::empty());
    assert(start.last() is MoveToLineStart);
    assert(cleared_lines(start.drop_last()) == 0);
    assert(cleared_lines(start) == 0);
}

} // verus!
