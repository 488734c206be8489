use vstd::prelude::*;

use crate::text::{contains, contains_seq};

pub mod multioption_prompt;
pub mod multiselect;
pub mod selection;

verus! {

/// The candidate values of a choice prompt, their display strings, and the indices of those
/// whose display string matches the current filter.
pub struct Options<T> {
    all_options: Vec<T>,
    transformed_options: Vec<String>,
    filtered_options: Vec<usize>,
}

/// The views of a sequence of strings.
pub open spec fn string_views(s: Seq<String>) -> Seq<Seq<char>> {
    s.map_values(|x: String| x@)
}

/// The indices of the labels that contain `filter`, in ascending order.
pub open spec fn matching_indices(labels: Seq<Seq<char>>, filter: Seq<char>) -> Seq<usize>
    decreases labels.len(),
{
    if labels.len() == 0 {
        Seq::empty()
    } else {
        let earlier = matching_indices(labels.drop_last(), filter);
        if contains_seq(labels.last(), filter) {
            earlier.push((labels.len() - 1) as usize)
        } else {
            earlier
        }
    }
}

/// Whether `s` is strictly increasing and all its elements are below `bound`.
pub open spec fn increasing_below(s: Seq<usize>, bound: nat) -> bool {
    &&& forall|i: int, j: int| 0 <= i < j < s.len() ==> s[i] < s[j]
    &&& forall|i: int| 0 <= i < s.len() ==> s[i] < bound
}

/// With the empty filter every label matches.
pub proof fn all_match_empty_filter(labels: Seq<Seq<char>>)
    ensures
        matching_indices(labels, Seq::empty()) == Seq::new(labels.len(), |i: int| i as usize),
    decreases labels.len(),
{
    if labels.len() > 0 {
        all_match_empty_filter(labels.drop_last());
        assert(labels.last().subrange(0, 0 + Seq::<char>::empty().len() as int) =~= Seq::<char>::empty());
        assert(contains_seq(labels.last(), Seq::empty()));
        assert(matching_indices(labels, Seq::empty()) =~= Seq::new(labels.len(), |i: int| i as usize));
    }
}

/// Filtering keeps exactly the indices whose display string contains the filter, each once and
/// in ascending order; the empty filter keeps every index.
pub proof fn filter_keeps_exactly_the_matches(labels: Seq<Seq<char>>, filter: Seq<char>)
    requires
        labels.len() <= usize::MAX,
    ensures
        increasing_below(matching_indices(labels, filter), labels.len()),
        forall|i: int|
            0 <= i < labels.len() ==> (matching_indices(labels, filter).contains(i as usize)
                <==> contains_seq(#[trigger] labels[i], filter)),
        matching_indices(labels, Seq::empty()) == Seq::new(labels.len(), |i: int| i as usize),
    decreases labels.len(),
{
    all_match_empty_filter(labels);
    if labels.len() > 0 {
        let earlier = labels.drop_last();
        filter_keeps_exactly_the_matches(earlier, filter);
        let m = matching_indices(labels, filter);
        let prev = matching_indices(earlier, filter);
        let last = (labels.len() - 1) as usize;
        assert forall|i: int| 0 <= i < labels.len() implies (m.contains(i as usize)
            <==> contains_seq(#[trigger] labels[i], filter)) by {
            if i < labels.len() - 1 {
                assert(labels[i] == earlier[i]);
                if m.contains(i as usize) {
                    let k = choose|k: int| 0 <= k < m.len() && m[k] == i as usize;
                    if k < prev.len() {
                        assert(prev[k] == i as usize);
                    }
                }
                if prev.contains(i as usize) {
                    let k = choose|k: int| 0 <= k < prev.len() && prev[k] == i as usize;
                    assert(m[k] == i as usize);
                }
            } else {
                if contains_seq(labels[i], filter) {
                    assert(m[m.len() - 1] == last);
                } else {
                    assert(m == prev);
                }
            }
        }
    }
}

/// `s` is what converting a clone of `v` into a `String` may give.
pub open spec fn converted_label<T: Clone + Into<String>>(v: T, s: Seq<char>) -> bool {
    exists|c: T, r: String| cloned(v, c) && call_ensures(T::into, (c,), r) && r@ == s
}

/// `s` is what `f` may give as the display string of `v`.
pub open spec fn transformed_label<T, F: Fn(&T) -> String>(f: F, v: &T, s: Seq<char>) -> bool {
    exists|r: String| f.ensures((v,), r) && r@ == s
}

impl<T> Options<T> {
    /// The candidate values.
    pub closed spec fn all(&self) -> Seq<T> {
        self.all_options@
    }

    /// The display strings, one per candidate value in the same order.
    pub closed spec fn labels(&self) -> Seq<Seq<char>> {
        string_views(self.transformed_options@)
    }

    /// The indices whose display string matches the current filter.
    pub closed spec fn filtered(&self) -> Seq<usize> {
        self.filtered_options@
    }

    pub open spec fn wf(&self) -> bool {
        increasing_below(self.filtered(), self.labels().len())
    }

    /// Whether the candidate values still line up with their display strings.
    pub open spec fn aligned(&self) -> bool {
        self.all().len() == self.labels().len()
    }
}

impl<T: Into<String> + Clone> Options<T> {
    /// Options whose display strings are the values converted into strings; none is filtered
    /// out.
    pub fn from_iter(options: Vec<T>) -> (r: Self)
        ensures
            r.wf(),
            r.aligned(),
            r.all() == options@,
            forall|i: int| 0 <= i < options@.len() ==> converted_label(options@[i], #[trigger] r.labels()[i]),
            r.filtered() == Seq::new(options@.len(), |i: int| i as usize),
    {
        let mut transformed_options: Vec<String> = Vec::new();
        let mut i: usize = 0;
        while i < options.len()
            invariant
                i <= options@.len(),
                transformed_options@.len() == i,
                forall|k: int| 0 <= k < i ==> converted_label(options@[k], #[trigger] transformed_options@[k]@),
            decreases options@.len() - i,
        {
            let c = options[i].clone();
            let label: String = c.into();
            transformed_options.push(label);
            i = i + 1;
        }
        let filtered_options = all_indices(options.len());
        let r = Options { all_options: options, transformed_options, filtered_options };
        r
    }
}

/// The indices `0..n` in ascending order.
fn all_indices(n: usize) -> (r: Vec<usize>)
    ensures
        r@ == Seq::new(n as nat, |i: int| i as usize),
{
    let mut r: Vec<usize> = Vec::new();
    let mut i: usize = 0;
    while i < n
        invariant
            i <= n,
            r@ == Seq::new(i as nat, |k: int| k as usize),
        decreases n - i,
    {
        r.push(i);
        i = i + 1;
        assert(r@ =~= Seq::new(i as nat, |k: int| k as usize));
    }
    r
}

impl<T> Options<T> {
    /// Options whose display strings are given by `transformation`; none is filtered out.
    pub fn from_iter_transformed<F: Fn(&T) -> String>(options: Vec<T>, transformation: F) -> (r: Self)
        requires
            forall|v: &T| transformation.requires((v,)),
        ensures
            r.wf(),
            r.aligned(),
            r.all() == options@,
            forall|i: int|
                0 <= i < options@.len() ==> transformed_label(
                    transformation,
                    &options@[i],
                    #[trigger] r.labels()[i],
                ),
            r.filtered() == Seq::new(options@.len(), |i: int| i as usize),
    {
        let mut transformed_options: Vec<String> = Vec::new();
        let mut i: usize = 0;
        while i < options.len()
            invariant
                i <= options@.len(),
                forall|v: &T| transformation.requires((v,)),
                transformed_options@.len() == i,
                forall|k: int|
                    0 <= k < i ==> transformation.ensures((&options@[k],), #[trigger] transformed_options@[k]),
            decreases options@.len() - i,
        {
            let label = transformation(&options[i]);
            transformed_options.push(label);
            i = i + 1;
        }
        let filtered_options = all_indices(options.len());
        let r = Options { all_options: options, transformed_options, filtered_options };
        assert forall|i: int| 0 <= i < options@.len() implies transformed_label(
            transformation,
            &options@[i],
            #[trigger] r.labels()[i],
        ) by {
            assert(transformation.ensures((&options@[i],), r.transformed_options@[i]));
            assert(r.labels()[i] == r.transformed_options@[i]@);
        }
        r
    }

    /// Keeps exactly the options whose display string contains `filter`, in the order
    /// they were given.
    pub fn filter(&mut self, filter: &str)
        ensures
            final(self).filtered() == matching_indices(old(self).labels(), filter@),
            final(self).labels() == old(self).labels(),
            final(self).all() == old(self).all(),
            final(self).wf(),
    {
        self.filtered_options.clear();
        let n = self.transformed_options.len();
        let mut index: usize = 0;
        while index < n
            invariant
                n == self.transformed_options@.len(),
                index <= n,
                self.labels() == old(self).labels(),
                self.all() == old(self).all(),
                self.filtered() == matching_indices(self.labels().take(index as int), filter@),
                increasing_below(self.filtered(), index as nat),
            decreases n - index,
        {
            let ghost labels = self.labels();
            assert(labels.take(index as int + 1).drop_last() =~= labels.take(index as int));
            if contains(self.transformed_options[index].as_str(), filter) {
                self.filtered_options.push(index);
            }
            index = index + 1;
        }
        assert(self.labels().take(n as int) =~= self.labels());
    }

    pub fn filtered_options(&self) -> (r: &[usize])
        ensures
            r@ == self.filtered(),
    {
        self.filtered_options.as_slice()
    }

    /// The candidate values, for taking the chosen ones out.
    pub fn all_options_mut(&mut self) -> (r: &mut Vec<T>)
        ensures
            r@ == old(self).all(),
            final(self).all() == final(r)@,
            final(self).labels() == old(self).labels(),
            final(self).filtered() == old(self).filtered(),
    {
        &mut self.all_options
    }

    pub fn transformed_options(&self) -> (r: &[String])
        ensures
            string_views(r@) == self.labels(),
    {
        self.transformed_options.as_slice()
    }
}

} // verus!
