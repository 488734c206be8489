use vstd::prelude::*;

use crate::engine::{CommandBuffer, DrawOp};
use crate::input::Key;

pub mod confirmation;
pub mod input;
pub mod options;
pub mod session;

pub use confirmation::Confirmation;
pub use input::Input;
pub use options::multiselect::Multiselect;
pub use options::selection::Selection;

verus! {

/// Declares `std::io::Error`, so that an abort can carry the terminal's I/O failure. Its
/// values are only passed along, never looked into.
#[verifier::external_type_specification]
#[verifier::external_body]
pub struct ExIoError(std::io::Error);

/// Why a prompt ended without a value.
#[derive(Debug)]
pub enum AbortReason {
    /// The user cancelled the prompt.
    Interrupt,
    /// Reading from or writing to the terminal failed.
    Error(std::io::Error),
}

impl From<std::io::Error> for AbortReason {
    fn from(error: std::io::Error) -> (r: Self)
        ensures
            r == AbortReason::Error(error),
    {
        AbortReason::Error(error)
    }
}

impl vstd::std_specs::convert::FromSpecImpl<std::io::Error> for AbortReason {
    open spec fn obeys_from_spec() -> bool {
        true
    }

    open spec fn from_spec(v: std::io::Error) -> Self {
        AbortReason::Error(v)
    }
}

/// What a prompt makes of one key press.
#[derive(Debug)]
pub enum EventOutcome<T> {
    /// The prompt is submitted with this value.
    Done(T),
    /// The prompt waits for more keys.
    Continue,
    /// The prompt ends without a value.
    Abort(AbortReason),
}

/// A prompt: a state that draws itself and changes with each key press.
pub trait Prompt<TOut>: Sized {
    /// Whether the state is consistent.
    spec fn wf(&self) -> bool;

    /// Whether the prompt has been submitted.
    spec fn is_finished(&self) -> bool;

    /// The operations that draw the current state.
    spec fn frame(&self) -> Seq<DrawOp>;

    /// Whether pressing `key` in this state may lead to state `next` with outcome `out`.
    spec fn step(&self, key: Key, next: &Self, out: EventOutcome<TOut>) -> bool;

    fn draw<B: CommandBuffer>(&self, commands: &mut B)
        requires
            self.wf(),
        ensures
            final(commands).ops() == old(commands).ops() + self.frame(),
    ;

    fn on_event(&mut self, key: Key) -> (r: EventOutcome<TOut>)
        requires
            old(self).wf(),
            !old(self).is_finished(),
        ensures
            final(self).wf(),
            final(self).is_finished() == (r is Done),
            old(self).step(key, final(self), r),
    ;
}

} // verus!
