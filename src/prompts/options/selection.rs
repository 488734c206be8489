use vstd::prelude::*;

use super::multioption_prompt::{draw_multioption, multioption_frame, MultiOptionPrompt};
use super::{increasing_below, matching_indices, Options};
use crate::engine::{CommandBuffer, DrawOp};
use crate::input::Key;
use crate::prompts::{AbortReason, EventOutcome, Prompt};
use crate::style::formatting::formatted_text;
use crate::style::selection_style::{is_default_selection_style, SelectionStyle};
use crate::text::{pop_char, push_char};

verus! {

pub const DEFAULT_OPTIONS_COUNT: u16 = 5;

/// A prompt that picks one value out of a filtered, scrolling list.
pub struct Selection<T> {
    label: String,
    options: Options<T>,
    current_selection: usize,
    max_options: u16,
    current_filter: String,
    is_submitted: bool,
    style: SelectionStyle,
}

/// The state of a [`Selection`], without its style.
pub struct SelectionState<T> {
    pub label: Seq<char>,
    /// The candidate values that are still held.
    pub all: Seq<T>,
    /// The display strings of the candidates, as they were given.
    pub labels: Seq<Seq<char>>,
    /// The indices of the candidates that match the filter.
    pub filtered: Seq<usize>,
    /// The highlighted position within `filtered`.
    pub current: usize,
    pub max_options: u16,
    pub filter: Seq<char>,
    pub is_submitted: bool,
}

/// The state with filter `filter` applied and the highlight back on the first match.
pub open spec fn refilter<T>(s: SelectionState<T>, filter: Seq<char>) -> SelectionState<T> {
    SelectionState { filter, filtered: matching_indices(s.labels, filter), current: 0, ..s }
}

/// How a selection answers one key press: a character extends the filter, Backspace shortens
/// it, Up and Down move the highlight within the matches, Enter submits the highlighted match
/// and takes its value out, Esc aborts.
pub open spec fn selection_step<T>(s: SelectionState<T>, key: Key) -> (SelectionState<T>, EventOutcome<T>) {
    match key {
        Key::Char(c) => (refilter(s, s.filter.push(c)), EventOutcome::Continue),
        Key::Backspace => if s.filter.len() > 0 {
            (refilter(s, s.filter.drop_last()), EventOutcome::Continue)
        } else {
            (s, EventOutcome::Continue)
        },
        Key::Up => if s.current > 0 {
            (SelectionState { current: (s.current - 1) as usize, ..s }, EventOutcome::Continue)
        } else {
            (s, EventOutcome::Continue)
        },
        Key::Down => if s.current + 1 < s.filtered.len() {
            (SelectionState { current: (s.current + 1) as usize, ..s }, EventOutcome::Continue)
        } else {
            (s, EventOutcome::Continue)
        },
        Key::Enter => if s.filtered.len() > 0 {
            let index = s.filtered[s.current as int] as int;
            (
                SelectionState { is_submitted: true, all: s.all.remove(index), ..s },
                EventOutcome::Done(s.all[index]),
            )
        } else {
            (s, EventOutcome::Continue)
        },
        Key::Esc => (s, EventOutcome::Abort(AbortReason::Interrupt)),
        _ => (s, EventOutcome::Continue),
    }
}

/// A selection that nobody has touched yet.
pub open spec fn fresh_selection<T>(label: Seq<char>, all: Seq<T>, labels: Seq<Seq<char>>) -> SelectionState<T> {
    SelectionState {
        label,
        all,
        labels,
        filtered: Seq::new(labels.len(), |i: int| i as usize),
        current: 0,
        max_options: 5,
        filter: Seq::empty(),
        is_submitted: false,
    }
}

impl<T> View for Selection<T> {
    type V = SelectionState<T>;

    closed spec fn view(&self) -> SelectionState<T> {
        SelectionState {
            label: self.label@,
            all: self.options.all(),
            labels: self.options.labels(),
            filtered: self.options.filtered(),
            current: self.current_selection,
            max_options: self.max_options,
            filter: self.current_filter@,
            is_submitted: self.is_submitted,
        }
    }
}

/// The consistency of a selection's state: the matches follow the filter, the highlight is on
/// a match when there is one, and until submission every candidate is still held.
pub open spec fn selection_wf<T>(s: SelectionState<T>) -> bool {
    &&& s.filtered == matching_indices(s.labels, s.filter)
    &&& s.filtered.len() == 0 ==> s.current == 0 && !s.is_submitted
    &&& s.filtered.len() > 0 ==> s.current < s.filtered.len()
    &&& !s.is_submitted ==> s.all.len() == s.labels.len()
}

impl<T: Into<String> + Clone> Selection<T> {
    pub fn new(label: &str, options: Vec<T>) -> (r: Self)
        ensures
            r.wf(),
            r@ == fresh_selection(label@, options@, r@.labels),
            is_default_selection_style(r.spec_style()),
            r@.labels.len() == options@.len(),
            forall|i: int|
                0 <= i < options@.len() ==> super::converted_label(options@[i], #[trigger] r@.labels[i]),
    {
        let options = Options::from_iter(options);
        Self::new_internal(label, options)
    }
}

impl<T> Selection<T> {
    pub fn new_with_transformation<F: Fn(&T) -> String>(label: &str, options: Vec<T>, transformation: F) -> (r: Self)
        requires
            forall|v: &T| transformation.requires((v,)),
        ensures
            r.wf(),
            r@ == fresh_selection(label@, options@, r@.labels),
            is_default_selection_style(r.spec_style()),
            r@.labels.len() == options@.len(),
            forall|i: int|
                0 <= i < options@.len() ==> super::transformed_label(
                    transformation,
                    &options@[i],
                    #[trigger] r@.labels[i],
                ),
    {
        let options = Options::from_iter_transformed(options, transformation);
        Self::new_internal(label, options)
    }

    pub closed spec fn spec_style(&self) -> SelectionStyle {
        self.style
    }

    /// The list that the prompt draws from holds what the prompt's state says.
    pub proof fn lemma_options(&self)
        ensures
            self.spec_options().all() == self@.all,
            self.spec_options().labels() == self@.labels,
            self.spec_options().filtered() == self@.filtered,
    {
    }

    pub fn displayed_options_count(self, options_count: u16) -> (r: Self)
        ensures
            r@ == (SelectionState { max_options: options_count, ..self@ }),
            r.spec_style() == self.spec_style(),
            r.wf() == self.wf(),
    {
        let mut s = self;
        s.max_options = options_count;
        s
    }

    pub fn style(self, style: SelectionStyle) -> (r: Self)
        ensures
            r@ == self@,
            r.spec_style() == style,
            r.wf() == self.wf(),
    {
        let mut s = self;
        s.style = style;
        s
    }

    fn new_internal(label: &str, options: Options<T>) -> (r: Self)
        requires
            options.wf(),
            options.aligned(),
            options.filtered() == Seq::new(options.labels().len(), |i: int| i as usize),
        ensures
            r.wf(),
            r@ == fresh_selection(label@, options.all(), options.labels()),
            is_default_selection_style(r.spec_style()),
    {
        proof {
            super::all_match_empty_filter(options.labels());
        }
        Selection {
            label: label.to_owned(),
            options,
            current_selection: 0,
            max_options: DEFAULT_OPTIONS_COUNT,
            current_filter: String::new(),
            is_submitted: false,
            style: SelectionStyle::default(),
        }
    }

    fn apply_filter(&mut self)
        requires
            old(self).options.wf(),
        ensures
            final(self)@ == refilter(old(self)@, old(self)@.filter),
            final(self).options.wf(),
            final(self).label == old(self).label,
            final(self).style == old(self).style,
    {
        self.options.filter(self.current_filter.as_str());
        self.current_selection = 0;
    }
}

impl<T> MultiOptionPrompt<T> for Selection<T> {
    open spec fn spec_max_options_count(&self) -> u16 {
        self@.max_options
    }

    closed spec fn spec_options(&self) -> Options<T> {
        self.options
    }

    open spec fn spec_current_index(&self) -> usize {
        self@.current
    }

    open spec fn can_draw(&self, is_submitted: bool) -> bool {
        is_submitted ==> self@.current < self@.filtered.len()
    }

    open spec fn option_ops(&self, option_index: usize, option_label: Seq<char>, is_selected: bool) -> Seq<DrawOp> {
        let style = self.spec_style();
        if is_selected {
            formatted_text(style.selected_marker.formatting@, style.selected_marker.marker@)
                + formatted_text(style.selected_option_formatting@, option_label)
        } else {
            formatted_text(style.not_selected_marker.formatting@, style.not_selected_marker.marker@)
                + formatted_text(style.option_formatting@, option_label)
        }
    }

    open spec fn header_ops(&self, is_submitted: bool) -> Seq<DrawOp> {
        if is_submitted {
            formatted_text(
                self.spec_style().submitted_formatting@,
                self@.labels[self@.filtered[self@.current as int] as int],
            )
        } else {
            formatted_text(self.spec_style().filter_formatting@, self@.filter)
        }
    }

    fn max_options_count(&self) -> (r: u16) {
        self.max_options
    }

    fn options(&self) -> (r: &Options<T>) {
        &self.options
    }

    fn currently_selected_index(&self) -> (r: usize) {
        self.current_selection
    }

    fn draw_option<B: CommandBuffer>(
        &self,
        option_index: usize,
        option_label: &str,
        is_selected: bool,
        cmd_buffer: &mut B,
    ) {
        if is_selected {
            self.style.selected_marker.print(cmd_buffer);
            self.style.selected_option_formatting.print(option_label, cmd_buffer);
        } else {
            self.style.not_selected_marker.print(cmd_buffer);
            self.style.option_formatting.print(option_label, cmd_buffer);
        }
    }

    fn draw_header<B: CommandBuffer>(&self, cmd_buffer: &mut B, is_submitted: bool) {
        if is_submitted {
            let selected_option_index = self.options.filtered_options()[self.current_selection];
            let selected_option = &self.options.transformed_options()[selected_option_index];
            self.style.submitted_formatting.print(selected_option.as_str(), cmd_buffer);
        } else {
            self.style.filter_formatting.print(self.current_filter.as_str(), cmd_buffer);
        }
    }
}

impl<T> Prompt<T> for Selection<T> {
    open spec fn wf(&self) -> bool {
        increasing_below(self@.filtered, self@.labels.len()) && selection_wf(self@)
    }

    open spec fn is_finished(&self) -> bool {
        self@.is_submitted
    }

    open spec fn frame(&self) -> Seq<DrawOp> {
        multioption_frame(self, self@.label, self@.is_submitted, self.spec_style().label_style@)
    }

    open spec fn step(&self, key: Key, next: &Self, out: EventOutcome<T>) -> bool {
        (next@, out) == selection_step(self@, key) && next.spec_style() == self.spec_style()
    }

    fn draw<B: CommandBuffer>(&self, commands: &mut B) {
        draw_multioption(self, self.label.as_str(), self.is_submitted, &self.style.label_style, commands)
    }

    fn on_event(&mut self, key: Key) -> (r: EventOutcome<T>)
    {
        match key {
            Key::Char(c) => {
                push_char(&mut self.current_filter, c);
                self.apply_filter();
                EventOutcome::Continue
            },
            Key::Backspace => {
                if !self.current_filter.as_str().is_empty() {
                    pop_char(&mut self.current_filter);
                    self.apply_filter();
                }
                EventOutcome::Continue
            },
            Key::Up => {
                if self.current_selection > 0 {
                    self.current_selection = self.current_selection - 1;
                }
                EventOutcome::Continue
            },
            Key::Down => {
                let len = self.options.filtered_options().len();
                if len > 0 && self.current_selection < len - 1 {
                    self.current_selection = self.current_selection + 1;
                }
                EventOutcome::Continue
            },
            Key::Enter => {
                if self.options.filtered_options().len() > 0 {
                    self.is_submitted = true;
                    let selected_option_index = self.options.filtered_options()[self.current_selection];
                    let result = self.options.all_options_mut().remove(selected_option_index);
                    EventOutcome::Done(result)
                } else {
                    EventOutcome::Continue
                }
            },
            Key::Esc => EventOutcome::Abort(AbortReason::Interrupt),
            _ => EventOutcome::Continue,
        }
    }
}

} // verus!
