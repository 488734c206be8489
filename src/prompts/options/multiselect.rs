use vstd::prelude::*;

use super::multioption_prompt::{draw_multioption, multioption_frame, MultiOptionPrompt};
use super::{increasing_below, matching_indices, string_views as string_views_of, Options};
use crate::engine::{CommandBuffer, DrawOp};
use crate::input::Key;
use crate::prompts::{EventOutcome, Prompt};
use crate::style::formatting::{formatted_text, reset_formatting};
use crate::style::multiselection_style::{is_default_multiselection_style, MultiselectionStyle};
use crate::text::{ascending, pop_char, push_char, sort_ascending};

verus! {

pub const DEFAULT_MAX_OPTIONS: u16 = 5;

pub const DEFAULT_HELP_MESSAGE: &'static str = "Space to select, enter to submit";

/// A prompt that picks any number of values out of a filtered, scrolling list.
pub struct Multiselect<T> {
    label: String,
    options: Options<T>,
    selected_options: Vec<usize>,
    help_message: Option<String>,
    max_displayed_options: u16,
    currently_selected_index: usize,
    is_submitted: bool,
    filter: String,
    style: MultiselectionStyle,
}

/// The state of a [`Multiselect`], without its style.
pub struct MultiselectState<T> {
    pub label: Seq<char>,
    /// The candidate values that are still held.
    pub all: Seq<T>,
    /// The display strings of the candidates, as they were given.
    pub labels: Seq<Seq<char>>,
    /// The indices of the candidates that match the filter.
    pub filtered: Seq<usize>,
    /// The highlighted position within `filtered`.
    pub current: usize,
    /// The indices of the chosen candidates.
    pub selected: Set<usize>,
    pub help_message: Option<Seq<char>>,
    pub max_options: u16,
    pub filter: Seq<char>,
    pub is_submitted: bool,
}

/// The state with filter `filter` applied and the highlight back on the first match.
pub open spec fn refilter_multi<T>(s: MultiselectState<T>, filter: Seq<char>) -> MultiselectState<T> {
    MultiselectState { filter, filtered: matching_indices(s.labels, filter), current: 0, ..s }
}

/// `set` with `x` added when it is absent and removed when it is present.
pub open spec fn toggled(set: Set<usize>, x: usize) -> Set<usize> {
    if set.contains(x) {
        set.remove(x)
    } else {
        set.insert(x)
    }
}

/// Space: the highlighted match, if any, changes membership; an active filter is then cleared.
pub open spec fn space_step<T>(s: MultiselectState<T>) -> MultiselectState<T> {
    let chosen = if s.filtered.len() > 0 {
        MultiselectState { selected: toggled(s.selected, s.filtered[s.current as int]), ..s }
    } else {
        s
    };
    if s.filter.len() > 0 {
        refilter_multi(chosen, Seq::empty())
    } else {
        chosen
    }
}

/// Whether the key submits the prompt: Enter, once something is chosen.
pub open spec fn submits<T>(s: MultiselectState<T>, key: Key) -> bool {
    key == Key::Enter && s.selected != Set::<usize>::empty()
}

/// How a multiselect answers a key press that does not submit it: Up and Down move the
/// highlight within the matches, Space chooses, other characters extend the filter and
/// Backspace shortens it; any other key changes nothing.
pub open spec fn multiselect_next<T>(s: MultiselectState<T>, key: Key) -> MultiselectState<T> {
    match key {
        Key::Up => if s.current > 0 {
            MultiselectState { current: (s.current - 1) as usize, ..s }
        } else {
            s
        },
        Key::Down => if s.current + 1 < s.filtered.len() {
            MultiselectState { current: (s.current + 1) as usize, ..s }
        } else {
            s
        },
        Key::Char(c) => if c == ' ' {
            space_step(s)
        } else {
            refilter_multi(s, s.filter.push(c))
        },
        Key::Backspace => if s.filter.len() > 0 {
            refilter_multi(s, s.filter.drop_last())
        } else {
            s
        },
        _ => s,
    }
}

/// How a multiselect answers one key press: a submitting key takes the chosen values out and
/// returns them in ascending order of position; any other key continues as
/// [`multiselect_next`] says.
pub open spec fn multiselect_step<T>(
    s: MultiselectState<T>,
    key: Key,
    next: MultiselectState<T>,
    out: EventOutcome<Vec<T>>,
) -> bool {
    if submits(s, key) {
        &&& next == submitted_multi(s)
        &&& out is Done
        &&& exists|q: Seq<usize>| ascending_enumeration(q, s.selected) && out->Done_0@ == values_at(s.all, q)
    } else {
        next == multiselect_next(s, key) && out is Continue
    }
}

/// The elements of `s` at positions `lo` and above whose position is not in `sel`, in order.
pub open spec fn kept_from<A>(s: Seq<A>, sel: Set<usize>, lo: int) -> Seq<A>
    decreases s.len() - lo,
{
    if lo < 0 || lo >= s.len() {
        Seq::empty()
    } else {
        (if sel.contains(lo as usize) {
            Seq::empty()
        } else {
            seq![s[lo]]
        }) + kept_from(s, sel, lo + 1)
    }
}

/// The elements of `s` whose position is not in `sel`, in order.
pub open spec fn without_positions<A>(s: Seq<A>, sel: Set<usize>) -> Seq<A> {
    kept_from(s, sel, 0)
}

/// `q` lists the elements of `set` in strictly ascending order.
pub open spec fn ascending_enumeration(q: Seq<usize>, set: Set<usize>) -> bool {
    &&& forall|i: int, j: int| 0 <= i < j < q.len() ==> q[i] < q[j]
    &&& q.to_set() == set
}

/// The values at the positions `q` of `all`, in the order of `q`.
pub open spec fn values_at<T>(all: Seq<T>, q: Seq<usize>) -> Seq<T> {
    q.map_values(|i: usize| all[i as int])
}

/// The state once submitted: the chosen values are taken out of the candidates.
pub open spec fn submitted_multi<T>(s: MultiselectState<T>) -> MultiselectState<T> {
    MultiselectState { is_submitted: true, all: without_positions(s.all, s.selected), ..s }
}

/// A multiselect that nobody has touched yet.
pub open spec fn fresh_multiselect<T>(label: Seq<char>, all: Seq<T>, labels: Seq<Seq<char>>) -> MultiselectState<T> {
    MultiselectState {
        label,
        all,
        labels,
        filtered: Seq::new(labels.len(), |i: int| i as usize),
        current: 0,
        selected: Set::empty(),
        help_message: Some(DEFAULT_HELP_MESSAGE@),
        max_options: 5,
        filter: Seq::empty(),
        is_submitted: false,
    }
}

/// The consistency of a multiselect's state.
pub open spec fn multiselect_wf<T>(s: MultiselectState<T>) -> bool {
    &&& s.filtered == matching_indices(s.labels, s.filter)
    &&& s.filtered.len() == 0 ==> s.current == 0
    &&& s.filtered.len() > 0 ==> s.current < s.filtered.len()
    &&& forall|x: usize| s.selected.contains(x) ==> x < s.labels.len()
    &&& !s.is_submitted ==> s.all.len() == s.labels.len()
}

/// The operations that list the labels of the positions `sel`, separated by commas; the first
/// `i` entries.
pub open spec fn listing(labels: Seq<Seq<char>>, sel: Seq<usize>, i: nat) -> Seq<DrawOp>
    decreases i,
{
    if i == 0 {
        Seq::empty()
    } else {
        listing(labels, sel, (i - 1) as nat) + seq![DrawOp::Print(labels[sel[i - 1] as int])] + (
        if i < sel.len() {
            seq![DrawOp::Print(seq![',', ' '])]
        } else {
            Seq::empty()
        })
    }
}

impl<T> View for Multiselect<T> {
    type V = MultiselectState<T>;

    closed spec fn view(&self) -> MultiselectState<T> {
        MultiselectState {
            label: self.label@,
            all: self.options.all(),
            labels: self.options.labels(),
            filtered: self.options.filtered(),
            current: self.currently_selected_index,
            selected: self.selected_options@.to_set(),
            help_message: match self.help_message {
                Some(m) => Some(m@),
                None => None,
            },
            max_options: self.max_displayed_options,
            filter: self.filter@,
            is_submitted: self.is_submitted,
        }
    }
}

/// Positions outside `sel` between `lo` and `hi` are all kept.
proof fn lemma_kept_unselected_run<A>(s: Seq<A>, sel: Set<usize>, lo: int, hi: int)
    requires
        0 <= lo <= hi <= s.len() <= usize::MAX,
        forall|x: usize| sel.contains(x) ==> !(lo <= x < hi),
    ensures
        kept_from(s, sel, lo) == s.subrange(lo, hi) + kept_from(s, sel, hi),
    decreases hi - lo,
{
    if lo < hi {
        assert(!sel.contains(lo as usize));
        lemma_kept_unselected_run(s, sel, lo + 1, hi);
        assert(kept_from(s, sel, lo) == seq![s[lo]] + kept_from(s, sel, lo + 1));
        assert(s.subrange(lo, hi) =~= seq![s[lo]] + s.subrange(lo + 1, hi));
        assert(kept_from(s, sel, lo) =~= s.subrange(lo, hi) + kept_from(s, sel, hi));
    } else {
        assert(s.subrange(lo, hi) =~= Seq::<A>::empty());
        assert(kept_from(s, sel, lo) =~= s.subrange(lo, hi) + kept_from(s, sel, hi));
    }
}

/// A selected position is dropped.
proof fn lemma_kept_selected<A>(s: Seq<A>, sel: Set<usize>, lo: int)
    requires
        0 <= lo < s.len(),
        sel.contains(lo as usize),
    ensures
        kept_from(s, sel, lo) == kept_from(s, sel, lo + 1),
{
    assert(kept_from(s, sel, lo) =~= kept_from(s, sel, lo + 1));
}

/// Removing the one occurrence of `v[i]` from a sequence without duplicates removes it from
/// its set.
proof fn lemma_remove_from_set(v: Seq<usize>, i: int)
    requires
        v.no_duplicates(),
        0 <= i < v.len(),
    ensures
        v.remove(i).no_duplicates(),
        v.remove(i).to_set() == v.to_set().remove(v[i]),
{
    let w = v.remove(i);
    assert forall|a: int, b: int| 0 <= a < w.len() && 0 <= b < w.len() && a != b implies w[a] != w[b] by {
        let a2 = if a < i { a } else { a + 1 };
        let b2 = if b < i { b } else { b + 1 };
        assert(w[a] == v[a2] && w[b] == v[b2]);
    }
    assert forall|x: usize| w.to_set().contains(x) <==> v.to_set().remove(v[i]).contains(x) by {
        if w.contains(x) {
            let a = choose|a: int| 0 <= a < w.len() && w[a] == x;
            let a2 = if a < i { a } else { a + 1 };
            assert(v[a2] == x);
        }
        if v.contains(x) && x != v[i] {
            let a = choose|a: int| 0 <= a < v.len() && v[a] == x;
            assert(a != i);
            let a2 = if a < i { a } else { a - 1 };
            assert(w[a2] == x);
        }
    }
    assert(w.to_set() =~= v.to_set().remove(v[i]));
}

/// Adding an absent element keeps a sequence free of duplicates and adds it to its set.
proof fn lemma_push_to_set(v: Seq<usize>, x: usize)
    requires
        v.no_duplicates(),
        !v.contains(x),
    ensures
        v.push(x).no_duplicates(),
        v.push(x).to_set() == v.to_set().insert(x),
{
    let w = v.push(x);
    assert forall|a: int, b: int| 0 <= a < w.len() && 0 <= b < w.len() && a != b implies w[a] != w[b] by {
        if a < v.len() && b < v.len() {
            assert(w[a] == v[a] && w[b] == v[b]);
        } else if a < v.len() {
            assert(w[a] == v[a]);
        } else if b < v.len() {
            assert(w[b] == v[b]);
        }
    }
    assert forall|y: usize| w.to_set().contains(y) <==> v.to_set().insert(x).contains(y) by {
        if w.contains(y) {
            let a = choose|a: int| 0 <= a < w.len() && w[a] == y;
            if a < v.len() {
                assert(v[a] == y);
            }
        }
        if v.contains(y) {
            let a = choose|a: int| 0 <= a < v.len() && v[a] == y;
            assert(w[a] == y);
        }
        assert(w[v.len() as int] == x);
    }
    assert(w.to_set() =~= v.to_set().insert(x));
}

/// Sorting a sequence without duplicates lists its set in strictly ascending order.
proof fn lemma_sorted_enumerates(before: Seq<usize>, after: Seq<usize>)
    requires
        before.no_duplicates(),
        after.to_multiset() == before.to_multiset(),
        ascending(after),
    ensures
        ascending_enumeration(after, before.to_set()),
{
    broadcast use vstd::seq_lib::to_multiset_contains;

    before.lemma_multiset_has_no_duplicates();
    after.lemma_multiset_has_no_duplicates_conv();
    assert forall|i: int, j: int| 0 <= i < j < after.len() implies after[i] < after[j] by {
        assert(after[i] <= after[j]);
        assert(after[i] != after[j]);
    }
    assert forall|x: usize| after.to_set().contains(x) <==> before.to_set().contains(x) by {
        assert(after.contains(x) <==> after.to_multiset().count(x) > 0);
        assert(before.contains(x) <==> before.to_multiset().count(x) > 0);
    }
    assert(after.to_set() =~= before.to_set());
}

/// Adds `x` to `selected` when absent, removes it when present.
fn toggle_selected(selected: &mut Vec<usize>, x: usize)
    requires
        old(selected)@.no_duplicates(),
    ensures
        final(selected)@.no_duplicates(),
        final(selected)@.to_set() == toggled(old(selected)@.to_set(), x),
        forall|y: usize| final(selected)@.contains(y) ==> old(selected)@.contains(y) || y == x,
{
    let mut i: usize = 0;
    while i < selected.len()
        invariant
            i <= selected@.len(),
            selected@ == old(selected)@,
            selected@.no_duplicates(),
            forall|k: int| 0 <= k < i ==> selected@[k] != x,
        decreases selected@.len() - i,
    {
        if selected[i] == x {
            proof {
                lemma_remove_from_set(selected@, i as int);
                assert(selected@.to_set().contains(x));
            }
            let ghost before = selected@;
            selected.remove(i);
            assert forall|y: usize| selected@.contains(y) implies before.contains(y) || y == x by {
                let a = choose|a: int| 0 <= a < selected@.len() && selected@[a] == y;
                let a2 = if a < i { a } else { a + 1 };
                assert(before[a2] == y);
            }
            return;
        }
        i = i + 1;
    }
    proof {
        assert(!selected@.contains(x));
        lemma_push_to_set(selected@, x);
    }
    let ghost before = selected@;
    selected.push(x);
    assert forall|y: usize| selected@.contains(y) implies before.contains(y) || y == x by {
        let a = choose|a: int| 0 <= a < selected@.len() && selected@[a] == y;
        if a < before.len() {
            assert(before[a] == y);
        }
    }
}

/// The position below which nothing is removed yet when the first `t` entries of `q` remain.
spec fn untouched_below(q: Seq<usize>, t: int) -> int {
    if t <= 0 {
        0
    } else {
        q[t - 1] + 1
    }
}

/// Takes the values at the positions `positions` (strictly ascending) out of the candidates,
/// from the last position down so that the earlier positions stay valid, and returns them in
/// ascending order of position.
fn remove_positions<T>(options: &mut Options<T>, positions: &Vec<usize>) -> (r: Vec<T>)
    requires
        forall|i: int, j: int| 0 <= i < j < positions@.len() ==> positions@[i] < positions@[j],
        forall|i: int| 0 <= i < positions@.len() ==> positions@[i] < old(options).all().len(),
    ensures
        final(options).all() == without_positions(old(options).all(), positions@.to_set()),
        final(options).labels() == old(options).labels(),
        final(options).filtered() == old(options).filtered(),
        r@ == values_at(old(options).all(), positions@),
{
    let ghost q = positions@;
    let ghost sel = q.to_set();
    let ghost old_all = options.all();
    let n = options.all_options_mut().len();
    let m = positions.len();
    proof {
        let b = untouched_below(q, m as int);
        assert forall|x: usize| sel.contains(x) implies !(b <= x < n) by {
            let k = choose|k: int| 0 <= k < q.len() && q[k] == x;
            if k < m - 1 {
                assert(q[k] < q[m - 1]);
            }
        }
        lemma_kept_unselected_run(old_all, sel, b, n as int);
        assert(kept_from(old_all, sel, n as int) =~= Seq::<T>::empty());
        assert(old_all =~= old_all.take(b) + kept_from(old_all, sel, b));
    }
    let mut result: Vec<T> = Vec::new();
    let mut t: usize = m;
    assert(result@ =~= values_at(old_all, q.subrange(m as int, m as int)));
    while t > 0
        invariant
            t <= m == q.len(),
            q == positions@,
            sel == q.to_set(),
            n == old_all.len(),
            forall|i: int, j: int| 0 <= i < j < q.len() ==> q[i] < q[j],
            forall|i: int| 0 <= i < q.len() ==> q[i] < n,
            options.all() == old_all.take(untouched_below(q, t as int)) + kept_from(
                old_all,
                sel,
                untouched_below(q, t as int),
            ),
            options.labels() == old(options).labels(),
            options.filtered() == old(options).filtered(),
            result@ == values_at(old_all, q.subrange(t as int, m as int)),
        decreases t,
    {
        let ghost before = options.all();
        let index = positions[t - 1];
        let value = options.all_options_mut().remove(index);
        proof {
            let top = index as int;
            let b = untouched_below(q, t - 1);
            assert(value == old_all[top]);
            assert forall|x: usize| sel.contains(x) implies !(b <= x < top) by {
                let k = choose|k: int| 0 <= k < q.len() && q[k] == x;
                if k < t - 2 {
                    assert(q[k] < q[t - 2]);
                }
                if k > t - 1 {
                    assert(q[t - 1] < q[k]);
                }
            }
            lemma_kept_unselected_run(old_all, sel, b, top);
            assert(sel.contains(index));
            lemma_kept_selected(old_all, sel, top);
            assert(options.all() =~= old_all.take(b) + kept_from(old_all, sel, b));
        }
        result.insert(0, value);
        t = t - 1;
        assert(result@ =~= values_at(old_all, q.subrange(t as int, m as int)));
    }
    assert(q.subrange(0, m as int) =~= q);
    assert(old_all.take(0) =~= Seq::<T>::empty());
    assert(options.all() =~= without_positions(old_all, sel));
    result
}

impl<T: Into<String> + Clone> Multiselect<T> {
    pub fn new(label: &str, options: Vec<T>) -> (r: Self)
        ensures
            r.wf(),
            r@ == fresh_multiselect(label@, options@, r@.labels),
            r.chosen() == Seq::<usize>::empty(),
            is_default_multiselection_style(r.spec_style()),
            r@.labels.len() == options@.len(),
            forall|i: int|
                0 <= i < options@.len() ==> super::converted_label(options@[i], #[trigger] r@.labels[i]),
    {
        let options = Options::from_iter(options);
        Self::new_internal(label, options)
    }
}

impl<T> Multiselect<T> {
    pub fn new_transformed<F: Fn(&T) -> String>(label: &str, options: Vec<T>, transformation: F) -> (r: Self)
        requires
            forall|v: &T| transformation.requires((v,)),
        ensures
            r.wf(),
            r@ == fresh_multiselect(label@, options@, r@.labels),
            r.chosen() == Seq::<usize>::empty(),
            is_default_multiselection_style(r.spec_style()),
            r@.labels.len() == options@.len(),
            forall|i: int|
                0 <= i < options@.len() ==> super::transformed_label(
                    transformation,
                    &options@[i],
                    #[trigger] r@.labels[i],
                ),
    {
        let options = Options::from_iter_transformed(options, transformation);
        Self::new_internal(label, options)
    }

    /// The chosen positions, in the order they are kept.
    pub closed spec fn chosen(&self) -> Seq<usize> {
        self.selected_options@
    }

    pub closed spec fn spec_style(&self) -> MultiselectionStyle {
        self.style
    }

    /// The list that the prompt draws from, and its chosen positions, hold what the prompt's
    /// state says.
    pub proof fn lemma_options(&self)
        ensures
            self.spec_options().all() == self@.all,
            self.spec_options().labels() == self@.labels,
            self.spec_options().filtered() == self@.filtered,
            self.chosen().to_set() == self@.selected,
    {
    }

    pub fn help_message(self, message: &str) -> (r: Self)
        ensures
            r@ == (MultiselectState { help_message: Some(message@), ..self@ }),
            r.chosen() == self.chosen(),
            r.spec_style() == self.spec_style(),
            r.wf() == self.wf(),
    {
        Multiselect { help_message: Some(message.to_owned()), ..self }
    }

    pub fn dont_display_help_message(self) -> (r: Self)
        ensures
            r@ == (MultiselectState { help_message: None, ..self@ }),
            r.chosen() == self.chosen(),
            r.spec_style() == self.spec_style(),
            r.wf() == self.wf(),
    {
        Multiselect { help_message: None, ..self }
    }

    pub fn max_displayed_options(self, max_options: u16) -> (r: Self)
        ensures
            r@ == (MultiselectState { max_options, ..self@ }),
            r.chosen() == self.chosen(),
            r.spec_style() == self.spec_style(),
            r.wf() == self.wf(),
    {
        Multiselect { max_displayed_options: max_options, ..self }
    }

    fn new_internal(label: &str, options: Options<T>) -> (r: Self)
        requires
            options.wf(),
            options.aligned(),
            options.filtered() == Seq::new(options.labels().len(), |i: int| i as usize),
        ensures
            r.wf(),
            r@ == fresh_multiselect(label@, options.all(), options.labels()),
            r.chosen() == Seq::<usize>::empty(),
            is_default_multiselection_style(r.spec_style()),
    {
        proof {
            super::all_match_empty_filter(options.labels());
        }
        let r = Multiselect {
            label: label.to_owned(),
            options,
            selected_options: Vec::new(),
            help_message: Some(DEFAULT_HELP_MESSAGE.to_owned()),
            max_displayed_options: DEFAULT_MAX_OPTIONS,
            currently_selected_index: 0,
            is_submitted: false,
            filter: String::new(),
            style: MultiselectionStyle::default(),
        };
        assert(r@.selected =~= Set::<usize>::empty());
        r
    }

    fn apply_filter(&mut self)
        requires
            old(self).options.wf(),
        ensures
            final(self)@ == refilter_multi(old(self)@, old(self)@.filter),
            final(self).options.wf(),
            final(self).selected_options == old(self).selected_options,
            final(self).style == old(self).style,
    {
        self.options.filter(self.filter.as_str());
        self.currently_selected_index = 0;
    }
}

impl<T> MultiOptionPrompt<T> for Multiselect<T> {
    open spec fn spec_max_options_count(&self) -> u16 {
        self@.max_options
    }

    closed spec fn spec_options(&self) -> Options<T> {
        self.options
    }

    open spec fn spec_current_index(&self) -> usize {
        self@.current
    }

    open spec fn can_draw(&self, is_submitted: bool) -> bool {
        forall|i: int| 0 <= i < self.chosen().len() ==> self.chosen()[i] < self@.labels.len()
    }

    open spec fn option_ops(&self, option_index: usize, option_label: Seq<char>, is_selected: bool) -> Seq<DrawOp> {
        self.spec_style().option_ops(option_label, self.chosen().contains(option_index), is_selected)
    }

    open spec fn header_ops(&self, is_submitted: bool) -> Seq<DrawOp> {
        let style = self.spec_style();
        if is_submitted {
            seq![DrawOp::SetFormatting(style.submitted_formatting@)] + listing(
                self@.labels,
                self.chosen(),
                self.chosen().len(),
            ) + seq![DrawOp::SetFormatting(reset_formatting())]
        } else {
            formatted_text(style.filter_formatting@, self@.filter) + seq![DrawOp::Print(seq![' '])]
                + match self@.help_message {
                Some(m) => formatted_text(style.help_message_formatting@, seq!['['] + m + seq![']']),
                None => Seq::empty(),
            }
        }
    }

    fn max_options_count(&self) -> (r: u16) {
        self.max_displayed_options
    }

    fn options(&self) -> (r: &Options<T>) {
        &self.options
    }

    fn currently_selected_index(&self) -> (r: usize) {
        self.currently_selected_index
    }

    fn draw_option<B: CommandBuffer>(
        &self,
        option_index: usize,
        option_label: &str,
        is_selected: bool,
        cmd_buffer: &mut B,
    ) {
        let mut is_chosen = false;
        let mut i: usize = 0;
        while i < self.selected_options.len()
            invariant
                i <= self.selected_options@.len(),
                is_chosen == exists|k: int| 0 <= k < i && self.selected_options@[k] == option_index,
            decreases self.selected_options@.len() - i,
        {
            if self.selected_options[i] == option_index {
                is_chosen = true;
            }
            i = i + 1;
        }
        self.style.print_option(option_label, is_chosen, is_selected, cmd_buffer);
    }

    fn draw_header<B: CommandBuffer>(&self, cmd_buffer: &mut B, is_submitted: bool) {
        if is_submitted {
            let separator = ", ";
            proof {
                reveal_strlit(", ");
            }
            assert(separator@ =~= seq![',', ' ']);
            cmd_buffer.set_formatting(&self.style.submitted_formatting);
            let ghost head = cmd_buffer.ops();
            let labels = self.options.transformed_options();
            let count = self.selected_options.len();
            assert(self.chosen() == self.selected_options@);
            let mut i: usize = 0;
            while i < count
                invariant
                    i <= count == self.selected_options@.len(),
                    string_views_of(labels@) == self.options.labels(),
                    forall|k: int| 0 <= k < count ==> self.selected_options@[k] < labels@.len(),
                    separator@ == seq![',', ' '],
                    cmd_buffer.ops() == head + listing(self.options.labels(), self.selected_options@, i as nat),
                decreases count - i,
            {
                let ghost before = cmd_buffer.ops();
                let selected_option = &labels[self.selected_options[i]];
                assert(selected_option@ == self.options.labels()[self.selected_options@[i as int] as int]);
                cmd_buffer.print(selected_option.as_str());
                if i < count - 1 {
                    cmd_buffer.print(separator);
                }
                assert(cmd_buffer.ops() =~= before + seq![DrawOp::Print(selected_option@)] + (if i + 1 < count {
                    seq![DrawOp::Print(seq![',', ' '])]
                } else {
                    Seq::empty()
                }));
                i = i + 1;
            }
            cmd_buffer.reset_formatting();
        } else {
            let space = " ";
            let open = "[";
            let close = "]";
            proof {
                reveal_strlit(" ");
                reveal_strlit("[");
                reveal_strlit("]");
            }
            self.style.filter_formatting.print(self.filter.as_str(), cmd_buffer);
            cmd_buffer.print(space);
            assert(space@ =~= seq![' ']);
            if let Some(help_message) = &self.help_message {
                let mut text = open.to_owned();
                text.append(help_message.as_str());
                text.append(close);
                assert(text@ =~= seq!['['] + help_message@ + seq![']']);
                self.style.help_message_formatting.print(text.as_str(), cmd_buffer);
            }
        }
    }
}

impl<T> Prompt<Vec<T>> for Multiselect<T> {
    open spec fn wf(&self) -> bool {
        &&& increasing_below(self@.filtered, self@.labels.len())
        &&& multiselect_wf(self@)
        &&& self.chosen().no_duplicates()
        &&& forall|i: int| 0 <= i < self.chosen().len() ==> self.chosen()[i] < self@.labels.len()
    }

    open spec fn is_finished(&self) -> bool {
        self@.is_submitted
    }

    open spec fn frame(&self) -> Seq<DrawOp> {
        multioption_frame(self, self@.label, self@.is_submitted, self.spec_style().label_style@)
    }

    open spec fn step(&self, key: Key, next: &Self, out: EventOutcome<Vec<T>>) -> bool {
        &&& multiselect_step(self@, key, next@, out)
        &&& next.spec_style() == self.spec_style()
        &&& submits(self@, key) ==> ascending_enumeration(next.chosen(), self@.selected)
    }

    fn draw<B: CommandBuffer>(&self, commands: &mut B) {
        draw_multioption(self, self.label.as_str(), self.is_submitted, &self.style.label_style, commands)
    }

    fn on_event(&mut self, key: Key) -> (r: EventOutcome<Vec<T>>)
    {
        match key {
            Key::Up => {
                if self.currently_selected_index > 0 {
                    self.currently_selected_index = self.currently_selected_index - 1;
                }
                EventOutcome::Continue
            },
            Key::Down => {
                let len = self.options.filtered_options().len();
                if len > 0 && self.currently_selected_index < len - 1 {
                    self.currently_selected_index = self.currently_selected_index + 1;
                }
                EventOutcome::Continue
            },
            Key::Char(c) => {
                if c == ' ' {
                    let filtered = self.options.filtered_options();
                    if filtered.len() > 0 {
                        let selected_option_index = filtered[self.currently_selected_index];
                        toggle_selected(&mut self.selected_options, selected_option_index);
                        proof {
                            let sel = self.selected_options@;
                            let old_sel = old(self).selected_options@;
                            assert forall|i: int| 0 <= i < sel.len() implies sel[i] < self.options.labels().len() by {
                                assert(sel.contains(sel[i]));
                                if sel[i] != selected_option_index {
                                    let k = choose|k: int| 0 <= k < old_sel.len() && old_sel[k] == sel[i];
                                }
                            }
                            assert forall|x: usize| self@.selected.contains(x) implies x < self.options.labels().len() by {
                                let k = choose|k: int| 0 <= k < sel.len() && sel[k] == x;
                            }
                        }
                    }
                    if !self.filter.as_str().is_empty() {
                        self.filter = String::new();
                        self.apply_filter();
                    }
                } else {
                    push_char(&mut self.filter, c);
                    self.apply_filter();
                }
                EventOutcome::Continue
            },
            Key::Backspace => {
                if !self.filter.as_str().is_empty() {
                    pop_char(&mut self.filter);
                    self.apply_filter();
                }
                EventOutcome::Continue
            },
            Key::Enter => {
                if self.selected_options.len() > 0 {
                    proof {
                        assert(self@.selected.contains(self.selected_options@[0]));
                    }
                    self.is_submitted = true;
                    sort_ascending(&mut self.selected_options);
                    proof {
                        lemma_sorted_enumerates(old(self).selected_options@, self.selected_options@);
                        assert forall|i: int| 0 <= i < self.selected_options@.len() implies self.selected_options@[i]
                            < self.options.all().len() by {
                            assert(self.selected_options@.to_set().contains(self.selected_options@[i]));
                        }
                    }
                    let result = remove_positions(&mut self.options, &self.selected_options);
                    EventOutcome::Done(result)
                } else {
                    assert(self@.selected =~= Set::<usize>::empty());
                    EventOutcome::Continue
                }
            },
            _ => EventOutcome::Continue,
        }
    }
}

/// The positions below `n` that are not in `sel`.
pub open spec fn other_positions(n: nat, sel: Set<usize>) -> Set<usize> {
    Set::new(|p: usize| p < n && !sel.contains(p))
}

proof fn lemma_ascending_prefix(q1: Seq<usize>, q2: Seq<usize>, set: Set<usize>, i: int)
    requires
        ascending_enumeration(q1, set),
        ascending_enumeration(q2, set),
        0 <= i <= q1.len(),
        i <= q2.len(),
    ensures
        forall|k: int| 0 <= k < i ==> q1[k] == q2[k],
    decreases i,
{
    if i > 0 {
        lemma_ascending_prefix(q1, q2, set, i - 1);
        let k = i - 1;
        assert(q1.to_set().contains(q1[k]));
        assert(q2.to_set().contains(q1[k]));
        let j = choose|j: int| 0 <= j < q2.len() && q2[j] == q1[k];
        if j < k {
            assert(q1[j] < q1[k]);
        }
        if k < j {
            assert(q2[k] < q2[j]);
        }
        assert(q2.to_set().contains(q2[k]));
        assert(q1.to_set().contains(q2[k]));
        let j2 = choose|j2: int| 0 <= j2 < q1.len() && q1[j2] == q2[k];
        if j2 < k {
            assert(q2[j2] < q2[k]);
        }
        if k < j2 {
            assert(q1[k] < q1[j2]);
        }
    }
}

/// There is one strictly ascending list of the elements of a set.
proof fn lemma_ascending_unique(q1: Seq<usize>, q2: Seq<usize>, set: Set<usize>)
    requires
        ascending_enumeration(q1, set),
        ascending_enumeration(q2, set),
    ensures
        q1 == q2,
{
    if q1.len() < q2.len() {
        lemma_ascending_prefix(q1, q2, set, q1.len() as int);
        let k = q1.len() as int;
        assert(q2.to_set().contains(q2[k]));
        assert(q1.to_set().contains(q2[k]));
        let j = choose|j: int| 0 <= j < q1.len() && q1[j] == q2[k];
        assert(q2[j] < q2[k]);
    } else if q2.len() < q1.len() {
        lemma_ascending_prefix(q1, q2, set, q2.len() as int);
        let k = q2.len() as int;
        assert(q1.to_set().contains(q1[k]));
        assert(q2.to_set().contains(q1[k]));
        let j = choose|j: int| 0 <= j < q2.len() && q2[j] == q1[k];
        assert(q1[j] < q1[k]);
    } else {
        lemma_ascending_prefix(q1, q2, set, q1.len() as int);
    }
    assert(q1 =~= q2);
}

/// From position `lo` on, the kept values are those at the other positions from `lo` on.
proof fn lemma_kept_are_the_rest<T>(all: Seq<T>, sel: Set<usize>, rest: Seq<usize>, lo: int) -> (c: int)
    requires
        0 <= lo <= all.len() <= usize::MAX,
        ascending_enumeration(rest, other_positions(all.len(), sel)),
    ensures
        0 <= c <= rest.len(),
        forall|k: int| 0 <= k < c ==> rest[k] < lo,
        forall|k: int| c <= k < rest.len() ==> rest[k] >= lo,
        kept_from(all, sel, lo) == values_at(all, rest.subrange(c, rest.len() as int)),
    decreases all.len() - lo,
{
    let len = rest.len() as int;
    if lo == all.len() {
        assert forall|k: int| 0 <= k < len implies rest[k] < lo by {
            assert(rest.to_set().contains(rest[k]));
        }
        assert(values_at(all, rest.subrange(len, len)) =~= Seq::<T>::empty());
        len
    } else {
        let c1 = lemma_kept_are_the_rest(all, sel, rest, lo + 1);
        if sel.contains(lo as usize) {
            lemma_kept_selected(all, sel, lo);
            assert forall|k: int| 0 <= k < c1 implies rest[k] < lo by {
                assert(rest.to_set().contains(rest[k]));
            }
            c1
        } else {
            assert(other_positions(all.len(), sel).contains(lo as usize));
            assert(rest.to_set().contains(lo as usize));
            let j = choose|j: int| 0 <= j < len && rest[j] == lo as usize;
            assert(j < c1);
            if j < c1 - 1 {
                assert(rest[j] < rest[c1 - 1]);
            }
            let c = c1 - 1;
            assert(rest[c] == lo);
            assert forall|k: int| 0 <= k < c implies rest[k] < lo by {
                assert(rest[k] < rest[c]);
            }
            assert(kept_from(all, sel, lo) == seq![all[lo]] + kept_from(all, sel, lo + 1));
            assert(values_at(all, rest.subrange(c, len)) =~= seq![all[lo]] + values_at(
                all,
                rest.subrange(c1, len),
            ));
            c
        }
    }
}

/// Submitting a multiselect returns the chosen values in ascending order of their
/// position, and the candidates then hold exactly the values at the other positions, in their
/// order. `q` lists the chosen positions in ascending order, and is the only such list;
/// `rest` lists the other positions in ascending order.
pub proof fn submission_splits_the_candidates<T>(
    all: Seq<T>,
    selected: Set<usize>,
    q: Seq<usize>,
    rest: Seq<usize>,
)
    requires
        all.len() <= usize::MAX,
        ascending_enumeration(q, selected),
        ascending_enumeration(rest, other_positions(all.len(), selected)),
    ensures
        forall|q2: Seq<usize>| ascending_enumeration(q2, selected) ==> q2 == q,
        forall|k: int| 0 <= k < q.len() ==> #[trigger] values_at(all, q)[k] == all[q[k] as int],
        without_positions(all, selected) == values_at(all, rest),
{
    assert forall|q2: Seq<usize>| ascending_enumeration(q2, selected) implies q2 == q by {
        lemma_ascending_unique(q2, q, selected);
    }
    let c = lemma_kept_are_the_rest(all, selected, rest, 0);
    if c > 0 {
        assert(rest[0] < 0);
    }
    assert(rest.subrange(0, rest.len() as int) =~= rest);
}

} // verus!
