use vstd::prelude::*;
use vstd::string::*;

use super::{AbortReason, EventOutcome, Prompt};
use crate::engine::{CommandBuffer, DrawOp};
use crate::input::Key;
use crate::style::formatting::formatted_text;
use crate::style::input_style::{is_default_input_style, InputStyle};
use crate::style::label_style::label_ops;
use crate::text::{pop_char, push_char};

verus! {

/// A free-text prompt whose text is checked, and converted, by a validation function.
pub struct Input<F> {
    label: String,
    input: String,
    help_message: Option<String>,
    is_first_input: bool,
    is_submitted: bool,
    error: Option<String>,
    esc_interrupts: bool,
    validation: F,
    style: InputStyle,
}

/// The state of an [`Input`], without its validation function and style.
pub struct InputState {
    pub label: Seq<char>,
    /// The text typed so far, or the default value before the first key.
    pub input: Seq<char>,
    pub help_message: Option<Seq<char>>,
    /// Whether no key has been pressed yet.
    pub is_first_input: bool,
    pub is_submitted: bool,
    /// The message of the last failed validation, until the next edit.
    pub error: Option<Seq<char>>,
    /// Whether Esc aborts the prompt.
    pub esc_interrupts: bool,
}

/// An input prompt that nobody has touched yet.
pub open spec fn fresh_input(label: Seq<char>) -> InputState {
    InputState {
        label,
        input: Seq::empty(),
        help_message: None,
        is_first_input: true,
        is_submitted: false,
        error: None,
        esc_interrupts: true,
    }
}

/// `v` is what `validation` may return on a text equal to `text`.
pub open spec fn validated<T, F: Fn(&str) -> Result<T, String>>(
    validation: F,
    text: Seq<char>,
    v: Result<T, String>,
) -> bool {
    exists|s: &str| s@ == text && validation.ensures((s,), v)
}

/// The text that an edit starts from: the first key replaces the default value.
pub open spec fn edited_text(s: InputState) -> Seq<char> {
    if s.is_first_input {
        Seq::empty()
    } else {
        s.input
    }
}

/// How an input prompt answers one key press. A character is appended and Backspace removes the
/// last character, both clearing the error and, on the first key, the default value first.
/// Enter validates the text: a failure keeps its message and clears the text, a success submits
/// the converted value. Esc aborts when the prompt lets it. Any key ends the first-key phase.
pub open spec fn input_step<T, F: Fn(&str) -> Result<T, String>>(
    validation: F,
    s: InputState,
    key: Key,
    next: InputState,
    out: EventOutcome<T>,
) -> bool {
    let s1 = InputState { is_first_input: false, ..s };
    match key {
        Key::Char(c) => next == (InputState { input: edited_text(s).push(c), error: None, ..s1 })
            && out is Continue,
        Key::Backspace => next == (InputState {
            input: if edited_text(s).len() > 0 {
                edited_text(s).drop_last()
            } else {
                edited_text(s)
            },
            error: None,
            ..s1
        }) && out is Continue,
        Key::Enter => exists|v: Result<T, String>|
            validated(validation, s.input, v) && match v {
                Ok(t) => next == (InputState { is_submitted: true, error: None, ..s1 }) && out
                    == EventOutcome::<T>::Done(t),
                Err(e) => next == (InputState { input: Seq::empty(), error: Some(e@), ..s1 })
                    && out is Continue,
            },
        Key::Esc => next == s1 && if s.esc_interrupts {
            out == EventOutcome::<T>::Abort(AbortReason::Interrupt)
        } else {
            out is Continue
        },
        _ => next == s1 && out is Continue,
    }
}

/// `text` between square brackets.
pub open spec fn bracketed(text: Seq<char>) -> Seq<char> {
    seq!['['] + text + seq![']']
}

/// The frame of an input prompt in state `s` and style `style`: the label, then the error in
/// brackets, or the submitted text, or the default value in brackets before the first key, or the
/// text typed so far; then the help message in brackets, if any.
pub open spec fn input_frame(s: InputState, style: InputStyle) -> Seq<DrawOp> {
    let body = match s.error {
        Some(e) => formatted_text(style.error_formatting@, bracketed(e)),
        None => if s.is_submitted {
            formatted_text(style.submitted_formatting@, s.input)
        } else if s.is_first_input && s.input.len() > 0 {
            formatted_text(style.default_value_formatting@, bracketed(s.input))
        } else if !s.is_first_input {
            formatted_text(style.input_formatting@, s.input)
        } else {
            Seq::empty()
        },
    };
    let help = match s.help_message {
        Some(m) => formatted_text(style.help_message_formatting@, bracketed(m)),
        None => Seq::empty(),
    };
    label_ops(style.label_style@, s.label) + body + help
}

impl<F> View for Input<F> {
    type V = InputState;

    closed spec fn view(&self) -> InputState {
        InputState {
            label: self.label@,
            input: self.input@,
            help_message: match self.help_message {
                Some(m) => Some(m@),
                None => None,
            },
            is_first_input: self.is_first_input,
            is_submitted: self.is_submitted,
            error: match self.error {
                Some(e) => Some(e@),
                None => None,
            },
            esc_interrupts: self.esc_interrupts,
        }
    }
}

/// Builds `[text]`.
fn bracket(text: &str) -> (r: String)
    ensures
        r@ == bracketed(text@),
{
    let open = "[";
    let close = "]";
    proof {
        reveal_strlit("[");
        reveal_strlit("]");
    }
    let mut r = open.to_owned();
    r.append(text);
    r.append(close);
    assert(r@ =~= bracketed(text@));
    r
}

impl<F, T> Input<F> where F: Fn(&str) -> Result<T, String> {
    pub fn new(label: &str, validation: F) -> (r: Self)
        requires
            forall|s: &str| validation.requires((s,)),
        ensures
            r@ == fresh_input(label@),
            r.validation() == validation,
            is_default_input_style(r.spec_style()),
            Prompt::<T>::wf(&r),
    {
        Input {
            label: label.to_owned(),
            input: String::new(),
            help_message: None,
            is_first_input: true,
            is_submitted: false,
            error: None,
            esc_interrupts: true,
            validation,
            style: InputStyle::default(),
        }
    }

    /// The validation function.
    pub closed spec fn validation(&self) -> F {
        self.validation
    }

    pub closed spec fn spec_style(&self) -> InputStyle {
        self.style
    }

    pub fn help_message(self, message: &str) -> (r: Self)
        ensures
            r@ == (InputState { help_message: Some(message@), ..self@ }),
            r.validation() == self.validation(),
            r.spec_style() == self.spec_style(),
            Prompt::<T>::wf(&self) ==> Prompt::<T>::wf(&r),
    {
        let r = Input { help_message: Some(message.to_owned()), ..self };
        assert(r.validation() == self.validation());
        r
    }

    /// Shows `val` as the default, submitted as it is if Enter is the first key.
    pub fn default_value(self, val: &str) -> (r: Self)
        ensures
            r@ == (InputState { input: val@, ..self@ }),
            r.validation() == self.validation(),
            r.spec_style() == self.spec_style(),
            Prompt::<T>::wf(&self) ==> Prompt::<T>::wf(&r),
    {
        let r = Input { input: val.to_owned(), ..self };
        assert(r.validation() == self.validation());
        r
    }

    /// Sets whether Esc aborts the prompt.
    pub fn esc_interrupts(self, interrupts: bool) -> (r: Self)
        ensures
            r@ == (InputState { esc_interrupts: interrupts, ..self@ }),
            r.validation() == self.validation(),
            r.spec_style() == self.spec_style(),
            Prompt::<T>::wf(&self) ==> Prompt::<T>::wf(&r),
    {
        let r = Input { esc_interrupts: interrupts, ..self };
        assert(r.validation() == self.validation());
        r
    }

    pub fn style(self, style: InputStyle) -> (r: Self)
        ensures
            r@ == self@,
            r.spec_style() == style,
            r.validation() == self.validation(),
            Prompt::<T>::wf(&self) ==> Prompt::<T>::wf(&r),
    {
        let r = Input { style, ..self };
        assert(r.validation() == self.validation());
        r
    }
}

impl<F, T> Prompt<T> for Input<F> where F: Fn(&str) -> Result<T, String> {
    open spec fn wf(&self) -> bool {
        forall|s: &str| self.validation().requires((s,))
    }

    open spec fn is_finished(&self) -> bool {
        self@.is_submitted
    }

    open spec fn frame(&self) -> Seq<DrawOp> {
        input_frame(self@, self.spec_style())
    }

    open spec fn step(&self, key: Key, next: &Self, out: EventOutcome<T>) -> bool {
        &&& input_step(self.validation(), self@, key, next@, out)
        &&& next.validation() == self.validation()
        &&& next.spec_style() == self.spec_style()
    }

    fn draw<B: CommandBuffer>(&self, commands: &mut B) {
        self.style.label_style.print_cmd(self.label.as_str(), commands);
        if let Some(error) = &self.error {
            self.style.error_formatting.print(bracket(error.as_str()).as_str(), commands);
        } else if self.is_submitted {
            self.style.submitted_formatting.print(self.input.as_str(), commands);
        } else if self.is_first_input && !self.input.as_str().is_empty() {
            self.style.default_value_formatting.print(bracket(self.input.as_str()).as_str(), commands);
        } else if !self.is_first_input {
            self.style.input_formatting.print(self.input.as_str(), commands);
        }
        if let Some(help_message) = &self.help_message {
            self.style.help_message_formatting.print(bracket(help_message.as_str()).as_str(), commands);
        }
    }

    fn on_event(&mut self, key: Key) -> (r: EventOutcome<T>) {
        assert(self.validation() == self.validation);
        let is_first_input = self.is_first_input;
        self.is_first_input = false;
        match key {
            Key::Char(c) => {
                if is_first_input {
                    self.input = String::new();
                }
                self.error = None;
                push_char(&mut self.input, c);
                EventOutcome::Continue
            },
            Key::Backspace => {
                if is_first_input {
                    self.input = String::new();
                }
                self.error = None;
                pop_char(&mut self.input);
                EventOutcome::Continue
            },
            Key::Enter => {
                let text = self.input.as_str();
                let v = (self.validation)(text);
                proof {
                    assert(validated(self.validation, old(self)@.input, v));
                }
                match v {
                    Ok(value) => {
                        self.error = None;
                        self.is_submitted = true;
                        EventOutcome::Done(value)
                    },
                    Err(e) => {
                        self.error = Some(e);
                        self.input = String::new();
                        EventOutcome::Continue
                    },
                }
            },
            Key::Esc => {
                if self.esc_interrupts {
                    EventOutcome::Abort(AbortReason::Interrupt)
                } else {
                    EventOutcome::Continue
                }
            },
            _ => EventOutcome::Continue,
        }
    }
}

/// Pressing Enter as the first key on a prompt that shows a default value submits that value
/// unchanged, converted by the validation, whenever the validation accepts it.
pub proof fn default_value_submitted_unchanged<T, F: Fn(&str) -> Result<T, String>>(
    validation: F,
    label: Seq<char>,
    default: Seq<char>,
    next: InputState,
    out: EventOutcome<T>,
)
    requires
        input_step(validation, InputState { input: default, ..fresh_input(label) }, Key::Enter, next, out),
        forall|v: Result<T, String>| validated(validation, default, v) ==> v is Ok,
    ensures
        next.is_submitted,
        next.input == default,
        next.error is None,
        exists|t: T| validated(validation, default, Ok(t)) && out == EventOutcome::<T>::Done(t),
{
    let v = choose|v: Result<T, String>|
        validated(validation, default, v) && match v {
            Ok(t) => next == (InputState {
                is_submitted: true,
                error: None,
                ..InputState { is_first_input: false, input: default, ..fresh_input(label) }
            }) && out == EventOutcome::<T>::Done(t),
            Err(e) => next == (InputState {
                input: Seq::empty(),
                error: Some(e@),
                ..InputState { is_first_input: false, input: default, ..fresh_input(label) }
            }) && out is Continue,
        };
    assert(v is Ok);
    let t = v->Ok_0;
    assert(validated(validation, default, Ok(t)));
}

} // verus!
