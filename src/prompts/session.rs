use vstd::prelude::*;

use super::{EventOutcome, Prompt};
use crate::engine::crossterm::render_output;
use crate::engine::{lines_count, Clear, CommandBuffer, CrosstermCommandBuffer, CrosstermEngine, DrawOp, Engine, TerminalOp};
use crate::input::Key;

verus! {

/// Draws the prompt's current state into the emptied buffer and renders it.
pub fn show_frame<T, P: Prompt<T>>(
    prompt: &P,
    engine: &mut CrosstermEngine,
    commands: &mut CrosstermCommandBuffer,
)
    requires
        prompt.wf(),
    ensures
        final(commands).ops() == prompt.frame(),
        final(engine).pending() == old(engine).pending() + render_output(
            old(engine).spec_previous_line_count(),
            prompt.frame(),
        ),
        final(engine).spec_previous_line_count() == lines_count(prompt.frame()),
{
    commands.clear();
    prompt.draw(commands);
    assert(commands.ops() =~= prompt.frame());
    engine.render(commands);
}

/// Feeds one key to the prompt. While the prompt continues, its new state is drawn and
/// rendered. Once it is done, its final state is drawn and rendered and the rendering is
/// finished with a line break. An abort renders nothing.
pub fn handle_key<T, P: Prompt<T>>(
    prompt: &mut P,
    engine: &mut CrosstermEngine,
    commands: &mut CrosstermCommandBuffer,
    key: Key,
) -> (r: EventOutcome<T>)
    requires
        old(prompt).wf(),
        !old(prompt).is_finished(),
    ensures
        final(prompt).wf(),
        final(prompt).is_finished() == (r is Done),
        old(prompt).step(key, final(prompt), r),
        r is Continue ==> final(commands).ops() == final(prompt).frame() && final(engine).pending()
            == old(engine).pending() + render_output(
            old(engine).spec_previous_line_count(),
            final(prompt).frame(),
        ) && final(engine).spec_previous_line_count() == lines_count(final(prompt).frame()),
        r is Done ==> final(commands).ops() == final(prompt).frame() && final(engine).pending()
            == old(engine).pending() + render_output(
            old(engine).spec_previous_line_count(),
            final(prompt).frame(),
        ).push(TerminalOp::Draw(DrawOp::NewLine)) && final(engine).spec_previous_line_count()
            == lines_count(final(prompt).frame()),
        r is Abort ==> *final(engine) == *old(engine) && *final(commands) == *old(commands),
{
    let outcome = prompt.on_event(key);
    match &outcome {
        EventOutcome::Done(_) => {
            show_frame(prompt, engine, commands);
            engine.finish_rendering();
        },
        EventOutcome::Continue => {
            show_frame(prompt, engine, commands);
        },
        EventOutcome::Abort(_) => {},
    }
    outcome
}

} // verus!
