use vstd::prelude::*;
use vstd::string::*;

use super::{AbortReason, EventOutcome, Prompt};
use crate::engine::{CommandBuffer, DrawOp};
use crate::input::Key;
use crate::style::confirmation_style::{is_default_confirmation_style, ConfirmationStyle};
use crate::style::formatting::formatted_text;
use crate::style::label_style::label_ops;

verus! {

/// A yes/no prompt with a default answer.
pub struct Confirmation {
    label: String,
    default_positive: bool,
    is_submitted: bool,
    selected_option: Option<bool>,
    style: ConfirmationStyle,
}

/// The state of a [`Confirmation`], without its style.
pub struct ConfirmationState {
    pub label: Seq<char>,
    pub default_positive: bool,
    pub is_submitted: bool,
    pub selected_option: Option<bool>,
}

/// A confirmation that nobody has answered yet.
pub open spec fn fresh_confirmation(label: Seq<char>, default_positive: bool) -> ConfirmationState {
    ConfirmationState { label, default_positive, is_submitted: false, selected_option: None }
}

/// How a confirmation answers one key press: `y`/`Y` and `n`/`N` choose while nothing is chosen,
/// Backspace takes the choice back, Enter submits the choice or else the default, Esc aborts.
pub open spec fn confirmation_step(s: ConfirmationState, key: Key) -> (ConfirmationState, EventOutcome<bool>) {
    match key {
        Key::Enter => match s.selected_option {
            Some(answer) => (ConfirmationState { is_submitted: true, ..s }, EventOutcome::Done(answer)),
            None => (
                ConfirmationState {
                    is_submitted: true,
                    selected_option: Some(s.default_positive),
                    ..s
                },
                EventOutcome::Done(s.default_positive),
            ),
        },
        Key::Char(c) => if s.selected_option is None && (c == 'y' || c == 'Y') {
            (ConfirmationState { selected_option: Some(true), ..s }, EventOutcome::Continue)
        } else if s.selected_option is None && (c == 'n' || c == 'N') {
            (ConfirmationState { selected_option: Some(false), ..s }, EventOutcome::Continue)
        } else {
            (s, EventOutcome::Continue)
        },
        Key::Backspace => (ConfirmationState { selected_option: None, ..s }, EventOutcome::Continue),
        Key::Esc => (s, EventOutcome::Abort(AbortReason::Interrupt)),
        _ => (s, EventOutcome::Continue),
    }
}

/// The text of the label line: the label, then the two answers with the default in capitals.
pub open spec fn confirmation_label(label: Seq<char>, default_positive: bool) -> Seq<char> {
    label + seq![' ', '['] + seq![if default_positive { 'Y' } else { 'y' }] + seq!['/'] + seq![
        if default_positive { 'n' } else { 'N' },
    ] + seq![']']
}

/// The text shown for the chosen answer.
pub open spec fn answer_text(selected: Option<bool>) -> Seq<char> {
    match selected {
        Some(true) => seq!['Y', 'e', 's'],
        Some(false) => seq!['N', 'o'],
        None => Seq::empty(),
    }
}

impl View for Confirmation {
    type V = ConfirmationState;

    closed spec fn view(&self) -> ConfirmationState {
        ConfirmationState {
            label: self.label@,
            default_positive: self.default_positive,
            is_submitted: self.is_submitted,
            selected_option: self.selected_option,
        }
    }
}

impl Confirmation {
    pub fn new(label: &str) -> (r: Self)
        ensures
            r@ == fresh_confirmation(label@, true),
            is_default_confirmation_style(r.spec_style()),
    {
        Confirmation {
            label: label.to_owned(),
            default_positive: true,
            is_submitted: false,
            selected_option: None,
            style: ConfirmationStyle::default(),
        }
    }

    pub closed spec fn spec_style(&self) -> ConfirmationStyle {
        self.style
    }

    pub fn default_positive(self, default_positive: bool) -> (r: Self)
        ensures
            r@ == (ConfirmationState { default_positive, ..self@ }),
            r.spec_style() == self.spec_style(),
    {
        let mut c = self;
        c.default_positive = default_positive;
        c
    }

    pub fn style(self, s: ConfirmationStyle) -> (r: Self)
        ensures
            r@ == self@,
            r.spec_style() == s,
    {
        let mut c = self;
        c.style = s;
        c
    }
}

impl Prompt<bool> for Confirmation {
    open spec fn wf(&self) -> bool {
        true
    }

    open spec fn is_finished(&self) -> bool {
        self@.is_submitted
    }

    open spec fn frame(&self) -> Seq<DrawOp> {
        let formatting = if self@.is_submitted {
            self.spec_style().submitted_formatting@
        } else {
            self.spec_style().input_formatting@
        };
        label_ops(self.spec_style().label_style@, confirmation_label(self@.label, self@.default_positive))
            + formatted_text(formatting, answer_text(self@.selected_option))
    }

    open spec fn step(&self, key: Key, next: &Self, out: EventOutcome<bool>) -> bool {
        (next@, out) == confirmation_step(self@, key) && next.spec_style() == self.spec_style()
    }

    fn draw<B: CommandBuffer>(&self, commands: &mut B) {
        let open = " [";
        let slash = "/";
        let close = "]";
        let yes = if self.default_positive {
            "Y"
        } else {
            "y"
        };
        let no = if self.default_positive {
            "n"
        } else {
            "N"
        };
        proof {
            reveal_strlit(" [");
            reveal_strlit("/");
            reveal_strlit("]");
            reveal_strlit("Y");
            reveal_strlit("y");
            reveal_strlit("n");
            reveal_strlit("N");
        }
        let mut text = self.label.clone();
        text.append(open);
        text.append(yes);
        text.append(slash);
        text.append(no);
        text.append(close);
        assert(text@ =~= confirmation_label(self.label@, self.default_positive));
        self.style.label_style.print(text.as_str(), commands);

        let answer = match self.selected_option {
            Some(true) => "Yes",
            Some(false) => "No",
            None => "",
        };
        proof {
            reveal_strlit("Yes");
            reveal_strlit("No");
            reveal_strlit("");
        }
        assert(answer@ =~= answer_text(self.selected_option));
        let formatting = if self.is_submitted {
            &self.style.submitted_formatting
        } else {
            &self.style.input_formatting
        };
        formatting.print(answer, commands);
    }

    fn on_event(&mut self, key: Key) -> (r: EventOutcome<bool>)
    {
        match key {
            Key::Enter => {
                self.is_submitted = true;
                match self.selected_option {
                    Some(answer) => EventOutcome::Done(answer),
                    None => {
                        self.selected_option = Some(self.default_positive);
                        EventOutcome::Done(self.default_positive)
                    },
                }
            },
            Key::Char(c) => {
                if self.selected_option.is_none() && (c == 'y' || c == 'Y') {
                    self.selected_option = Some(true);
                } else if self.selected_option.is_none() && (c == 'n' || c == 'N') {
                    self.selected_option = Some(false);
                }
                EventOutcome::Continue
            },
            Key::Backspace => {
                self.selected_option = None;
                EventOutcome::Continue
            },
            Key::Esc => EventOutcome::Abort(AbortReason::Interrupt),
            _ => EventOutcome::Continue,
        }
    }
}

/// A fresh confirmation with a positive default submits `true` on Enter, and submits `false`
/// when `n` is pressed before Enter.
pub proof fn confirmation_default_answer(label: Seq<char>)
    ensures
        confirmation_step(fresh_confirmation(label, true), Key::Enter).1 == EventOutcome::<bool>::Done(true),
        confirmation_step(
            confirmation_step(fresh_confirmation(label, true), Key::Char('n')).0,
            Key::Enter,
        ).1 == EventOutcome::<bool>::Done(false),
{
}

} // verus!
