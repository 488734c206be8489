pub mod engine;
pub mod input;
pub mod prompts;
pub mod raw_mode;
pub mod style;
pub mod text;

pub use prompts::{AbortReason, Confirmation, EventOutcome, Input, Multiselect, Prompt, Selection};
