use vstd::prelude::*;

use super::{string_views, Options};
use crate::engine::{CommandBuffer, DrawOp};
use crate::style::label_style::{label_ops, LabelStyle, LabelStyleView};

verus! {

/// The first row of the visible window: the highlighted row is centred, unless the window would
/// then reach past either end of the list, in which case it is pinned to that end.
pub open spec fn window_start(current: int, max_visible: int, len: int) -> int {
    let centred = if current >= max_visible / 2 {
        current - max_visible / 2
    } else {
        0
    };
    let last = if len >= max_visible {
        len - max_visible
    } else {
        0
    };
    if centred < last {
        centred
    } else {
        last
    }
}

/// The number of rows shown from `start` on, at most `max_visible`.
pub open spec fn window_len(start: int, max_visible: int, len: int) -> int {
    if len - start < max_visible {
        len - start
    } else {
        max_visible
    }
}

/// Computes [`window_start`].
pub fn visible_window_start(current: usize, max_visible: usize, len: usize) -> (r: usize)
    ensures
        r == window_start(current as int, max_visible as int, len as int),
{
    let centred = if current >= max_visible / 2 {
        current - max_visible / 2
    } else {
        0
    };
    let last = if len >= max_visible {
        len - max_visible
    } else {
        0
    };
    if centred < last {
        centred
    } else {
        last
    }
}

/// Whenever the highlighted row exists and the list fills the window, the window holds the
/// highlighted row and ends within the list.
pub proof fn window_holds_current(current: int, max_visible: int, len: int)
    requires
        0 <= current < len,
        1 <= max_visible <= len,
    ensures
        0 <= window_start(current, max_visible, len),
        window_start(current, max_visible, len) <= current,
        current < window_start(current, max_visible, len) + max_visible,
        window_start(current, max_visible, len) + max_visible <= len,
{
}

/// For any list and any window of at least one row, the rows shown are the `min(max_visible,
/// len)` rows from the window's start, they lie within the list, and they include the
/// highlighted row; the blank lines that follow bring the window to its full height.
pub proof fn window_rows_hold_current(current: int, max_visible: int, len: int)
    requires
        0 <= current < len,
        1 <= max_visible,
    ensures
        0 <= window_start(current, max_visible, len) <= current,
        window_len(window_start(current, max_visible, len), max_visible, len) == if max_visible
            < len {
            max_visible
        } else {
            len
        },
        current < window_start(current, max_visible, len) + window_len(
            window_start(current, max_visible, len),
            max_visible,
            len,
        ),
        window_start(current, max_visible, len) + window_len(
            window_start(current, max_visible, len),
            max_visible,
            len,
        ) <= len,
{
}

/// The blank placeholder lines that keep a window of fewer rows at its full height.
pub open spec fn blank_rows(n: nat) -> Seq<DrawOp> {
    Seq::new(n, |i: int| DrawOp::NewLine)
}

/// A prompt that draws a filtered list of options through a scrolling window.
pub trait MultiOptionPrompt<T>: Sized {
    spec fn spec_max_options_count(&self) -> u16;

    spec fn spec_options(&self) -> Options<T>;

    spec fn spec_current_index(&self) -> usize;

    /// Whether the header can be drawn in the given state.
    spec fn can_draw(&self, is_submitted: bool) -> bool;

    /// The operations that draw the option at `option_index` of the candidates.
    spec fn option_ops(&self, option_index: usize, option_label: Seq<char>, is_selected: bool) -> Seq<DrawOp>;

    /// The operations that draw the rest of the label line.
    spec fn header_ops(&self, is_submitted: bool) -> Seq<DrawOp>;

    fn max_options_count(&self) -> (r: u16)
        ensures
            r == self.spec_max_options_count(),
    ;

    fn options(&self) -> (r: &Options<T>)
        ensures
            *r == self.spec_options(),
    ;

    fn currently_selected_index(&self) -> (r: usize)
        ensures
            r == self.spec_current_index(),
    ;

    fn draw_option<B: CommandBuffer>(
        &self,
        option_index: usize,
        option_label: &str,
        is_selected: bool,
        cmd_buffer: &mut B,
    )
        ensures
            final(cmd_buffer).ops() == old(cmd_buffer).ops() + self.option_ops(
                option_index,
                option_label@,
                is_selected,
            ),
    ;

    fn draw_header<B: CommandBuffer>(&self, cmd_buffer: &mut B, is_submitted: bool)
        requires
            self.can_draw(is_submitted),
            self.spec_options().wf(),
        ensures
            final(cmd_buffer).ops() == old(cmd_buffer).ops() + self.header_ops(is_submitted),
    ;
}

/// Draws the label line and, until the prompt is submitted, the visible window of options
/// below it, padded with blank lines to the window's full height.
pub fn draw_multioption<T, P: MultiOptionPrompt<T>, B: CommandBuffer>(
    prompt: &P,
    label: &str,
    is_submitted: bool,
    label_style: &LabelStyle,
    cmd_buffer: &mut B,
)
    requires
        prompt.can_draw(is_submitted),
        prompt.spec_options().wf(),
    ensures
        final(cmd_buffer).ops() == old(cmd_buffer).ops() + multioption_frame(
            prompt,
            label@,
            is_submitted,
            label_style@,
        ),
{
    label_style.print_cmd(label, cmd_buffer);
    prompt.draw_header(cmd_buffer, is_submitted);
    if !is_submitted {
        cmd_buffer.new_line();
        let ghost head = cmd_buffer.ops();
        let max_options_count = prompt.max_options_count() as usize;
        let options = prompt.options();
        let filtered = options.filtered_options();
        let labels = options.transformed_options();
        let current = prompt.currently_selected_index();
        let len = filtered.len();
        let start_from = visible_window_start(current, max_options_count, len);
        let count = if len - start_from < max_options_count {
            len - start_from
        } else {
            max_options_count
        };
        let mut k: usize = 0;
        while k < count
            invariant
                k <= count,
                count == window_len(start_from as int, max_options_count as int, len as int),
                start_from == window_start(current as int, max_options_count as int, len as int),
                len == filtered@.len(),
                start_from <= len,
                filtered@ == prompt.spec_options().filtered(),
                string_views(labels@) == prompt.spec_options().labels(),
                prompt.spec_options().wf(),
                current == prompt.spec_current_index(),
                cmd_buffer.ops() == head + option_rows(prompt, start_from as int, k as nat),
            decreases count - k,
        {
            let row = start_from + k;
            let option_index = filtered[row];
            let is_selected = row == current;
            prompt.draw_option(option_index, labels[option_index].as_str(), is_selected, cmd_buffer);
            cmd_buffer.new_line();
            k = k + 1;
        }
        let ghost rows = cmd_buffer.ops();
        let mut blank: usize = count;
        while blank < max_options_count
            invariant
                count <= blank <= max_options_count,
                cmd_buffer.ops() == rows + blank_rows((blank - count) as nat),
            decreases max_options_count - blank,
        {
            cmd_buffer.new_line();
            blank = blank + 1;
            assert(blank_rows((blank - count) as nat) =~= blank_rows((blank - count - 1) as nat).push(DrawOp::NewLine));
        }
    }
    assert(cmd_buffer.ops() =~= old(cmd_buffer).ops() + multioption_frame(
        prompt,
        label@,
        is_submitted,
        label_style@,
    ));
}

/// The operations that draw `count` option rows of the window starting at row `start`, each
/// followed by a line break.
pub open spec fn option_rows<T, P: MultiOptionPrompt<T>>(p: &P, start: int, count: nat) -> Seq<DrawOp>
    decreases count,
{
    if count == 0 {
        Seq::empty()
    } else {
        let row = start + count - 1;
        let option_index = p.spec_options().filtered()[row];
        option_rows(p, start, (count - 1) as nat) + p.option_ops(
            option_index,
            p.spec_options().labels()[option_index as int],
            row == p.spec_current_index(),
        ) + seq![DrawOp::NewLine]
    }
}

/// The whole frame of a list prompt.
pub open spec fn multioption_frame<T, P: MultiOptionPrompt<T>>(
    p: &P,
    label: Seq<char>,
    is_submitted: bool,
    label_style: LabelStyleView,
) -> Seq<DrawOp> {
    let head = label_ops(label_style, label) + p.header_ops(is_submitted);
    if is_submitted {
        head
    } else {
        let max = p.spec_max_options_count() as int;
        let len = p.spec_options().filtered().len() as int;
        let start = window_start(p.spec_current_index() as int, max, len);
        let count = window_len(start, max, len);
        head + seq![DrawOp::NewLine] + option_rows(p, start, count as nat) + blank_rows(
            (max - count) as nat,
        )
    }
}

} // verus!
