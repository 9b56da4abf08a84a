//! States of input elements, and the live and snapshot states of input
//! devices.
use vstd::prelude::*;

use crate::event::{ElementState, React};

verus! {

/// An atomic state of an input element.
pub trait State: Copy + Eq {
    /// Representation of a difference between states.
    type Difference;

    /// The transition between a live and a snapshot state: `None` where they
    /// are the same, else the live state.
    fn transition(live: Self, snapshot: Self) -> (r: Option<Self>)
        ensures
            r == (if live == snapshot {
                None
            } else {
                Some(live)
            }),
    ;
}

impl State for bool {
    type Difference = bool;

    fn transition(live: bool, snapshot: bool) -> (r: Option<bool>) {
        if live == snapshot {
            None
        } else {
            Some(live)
        }
    }
}

impl State for ElementState {
    type Difference = ElementState;

    fn transition(live: ElementState, snapshot: ElementState) -> (r: Option<ElementState>) {
        if live == snapshot {
            None
        } else {
            Some(live)
        }
    }
}

/// An input element, such as a button, key, or position.
pub trait Element: Copy + Sized {
    /// Representation of the state of the element.
    type State: State;

    /// Whether two elements are the same element.
    fn same(&self, other: &Self) -> (r: bool)
        ensures
            r == (*self == *other),
    ;
}

/// Whether `elements` holds `element`.
pub fn holds<E: Element>(elements: &Vec<E>, element: E) -> (r: bool)
    ensures
        r == elements@.contains(element),
{
    let mut i: usize = 0;
    while i < elements.len()
        invariant
            i <= elements.len(),
            forall|j: int| 0 <= j < i ==> elements@[j] != element,
        decreases elements.len() - i,
    {
        if elements[i].same(&element) {
            return true;
        }
        i = i + 1;
    }
    false
}

/// Adds `element` to a sequence of distinct elements, at the end, unless it
/// is there already.
pub fn insert_element<E: Element>(elements: &mut Vec<E>, element: E)
    requires
        old(elements)@.no_duplicates(),
    ensures
        final(elements)@.no_duplicates(),
        final(elements)@ == (if old(elements)@.contains(element) {
            old(elements)@
        } else {
            old(elements)@.push(element)
        }),
{
    if !holds(elements, element) {
        elements.push(element);
    }
}

/// The test that keeps every element but `element`.
pub open spec fn other_than<E>(element: E) -> spec_fn(E) -> bool {
    |e: E| e != element
}

/// Removes `element` from a sequence of distinct elements, keeping the order
/// of the others.
pub fn remove_element<E: Element>(elements: &mut Vec<E>, element: E)
    requires
        old(elements)@.no_duplicates(),
    ensures
        final(elements)@.no_duplicates(),
        final(elements)@ == old(elements)@.filter(other_than(element)),
{
    let ghost before = elements@;
    let mut i: usize = 0;
    while i < elements.len()
        invariant
            elements@ == before,
            before == old(elements)@,
            before.no_duplicates(),
            i <= elements.len(),
            forall|j: int| 0 <= j < i ==> elements@[j] != element,
        decreases elements.len() - i,
    {
        if elements[i].same(&element) {
            elements.remove(i);
            proof {
                lemma_filter_remove_at(before, i as int, element);
            }
            return;
        }
        i = i + 1;
    }
    proof {
        lemma_filter_absent(before, element);
    }
}

/// Filtering out an element that does not occur changes nothing.
proof fn lemma_filter_absent<E>(s: Seq<E>, element: E)
    requires
        forall|j: int| 0 <= j < s.len() ==> s[j] != element,
    ensures
        s.filter(other_than(element)) == s,
    decreases s.len(),
{
    reveal_with_fuel(Seq::filter, 1);
    if s.len() > 0 {
        lemma_filter_absent(s.drop_last(), element);
        assert(s.drop_last().push(s.last()) =~= s);
    } else {
        assert(s.filter(other_than(element)) =~= s);
    }
}

/// Filtering out an element that occurs once, at `i`, removes it there.
proof fn lemma_filter_remove_at<E>(s: Seq<E>, i: int, element: E)
    requires
        0 <= i < s.len(),
        s[i] == element,
        s.no_duplicates(),
    ensures
        s.filter(other_than(element)) == s.remove(i),
        s.remove(i).no_duplicates(),
    decreases s.len(),
{
    reveal_with_fuel(Seq::filter, 1);
    if i == s.len() - 1 {
        lemma_filter_absent(s.drop_last(), element);
        assert(s.remove(i) =~= s.drop_last());
    } else {
        lemma_filter_remove_at(s.drop_last(), i, element);
        assert(s.drop_last().remove(i).push(s.last()) =~= s.remove(i));
    }
}

/// The elements of `first` that are not in `second`, each with `state`.
pub open spec fn only_in<E>(first: Seq<E>, second: Seq<E>, state: ElementState) -> Seq<(E, ElementState)> {
    first.filter(|e: E| !second.contains(e)).map_values(|e: E| (e, state))
}

/// Filtering keeps a sequence free of duplicates.
proof fn lemma_filter_distinct<E>(s: Seq<E>, keep: spec_fn(E) -> bool)
    requires
        s.no_duplicates(),
    ensures
        s.filter(keep).no_duplicates(),
        forall|e: E| s.filter(keep).contains(e) ==> s.contains(e),
    decreases s.len(),
{
    reveal_with_fuel(Seq::filter, 1);
    if s.len() > 0 {
        let t = s.drop_last();
        assert(t.no_duplicates());
        lemma_filter_distinct(t, keep);
        let last = s.last();
        assert(!t.contains(last)) by {
            if t.contains(last) {
                let j = choose|j: int| 0 <= j < t.len() && t[j] == last;
                assert(s[j] == t[j]);
                assert(s[j] == s[s.len() - 1]);
            }
        }
        if keep(last) {
            let f = t.filter(keep);
            assert(s.filter(keep) == f.push(last));
            assert forall|e: E| s.filter(keep).contains(e) implies s.contains(e) by {
                if f.contains(e) {
                    assert(t.contains(e));
                    let j = choose|j: int| 0 <= j < t.len() && t[j] == e;
                    assert(s[j] == t[j]);
                } else {
                    let j = choose|j: int| 0 <= j < f.len() + 1 && f.push(last)[j] == e;
                    assert(j == f.len());
                    assert(s[s.len() - 1] == e);
                }
            }
        } else {
            assert forall|e: E| s.filter(keep).contains(e) implies s.contains(e) by {
                assert(t.filter(keep).contains(e));
                assert(t.contains(e));
                let j = choose|j: int| 0 <= j < t.len() && t[j] == e;
                assert(s[j] == t[j]);
            }
        }
    } else {
        assert(s.filter(keep) =~= Seq::<E>::empty());
    }
}

/// The elements only in `first`, where `first` has no duplicates, come once
/// each.
pub proof fn lemma_only_in_distinct<E>(first: Seq<E>, second: Seq<E>, state: ElementState)
    requires
        first.no_duplicates(),
    ensures
        only_in(first, second, state).no_duplicates(),
{
    let keep = |e: E| !second.contains(e);
    lemma_filter_distinct(first, keep);
    let f = first.filter(keep);
    let m = f.map_values(|e: E| (e, state));
    assert forall|i: int, j: int| 0 <= i < m.len() && 0 <= j < m.len() && i != j implies m[i] != m[j] by {
        assert(f[i] != f[j]);
    }
}

/// A difference of two states without duplicates names each element once:
/// those only in the live state, then those only in the snapshot.
pub proof fn lemma_difference_distinct<E>(live: Seq<E>, snapshot: Seq<E>)
    requires
        live.no_duplicates(),
        snapshot.no_duplicates(),
    ensures
        (only_in(live, snapshot, ElementState::Pressed) + only_in(
            snapshot,
            live,
            ElementState::Released,
        )).no_duplicates(),
{
    lemma_only_in_distinct(live, snapshot, ElementState::Pressed);
    lemma_only_in_distinct(snapshot, live, ElementState::Released);
    let a = only_in(live, snapshot, ElementState::Pressed);
    let b = only_in(snapshot, live, ElementState::Released);
    assert forall|i: int, j: int| 0 <= i < a.len() && 0 <= j < b.len() implies a[i] != b[j] by {
        assert(a[i].1 == ElementState::Pressed);
        assert(b[j].1 == ElementState::Released);
    }
    vstd::seq_lib::lemma_no_dup_in_concat(a, b);
}

/// A state compared with itself has no difference: no element is only in one
/// of them.
pub proof fn lemma_no_difference_with_itself<E>(s: Seq<E>, state: ElementState)
    ensures
        only_in(s, s, state) == Seq::<(E, ElementState)>::empty(),
{
    let keep = |e: E| !s.contains(e);
    lemma_filter_none(s, s, keep);
    assert(only_in(s, s, state) =~= Seq::<(E, ElementState)>::empty());
}

/// Filtering a prefix of `s` by "not in `s`" keeps nothing.
proof fn lemma_filter_none<E>(t: Seq<E>, s: Seq<E>, keep: spec_fn(E) -> bool)
    requires
        forall|i: int| 0 <= i < t.len() ==> s.contains(#[trigger] t[i]),
        forall|e: E| #[trigger] keep(e) == !s.contains(e),
    ensures
        t.filter(keep) == Seq::<E>::empty(),
    decreases t.len(),
{
    reveal_with_fuel(Seq::filter, 1);
    if t.len() > 0 {
        lemma_filter_none(t.drop_last(), s, keep);
        assert(s.contains(t[t.len() - 1]));
    }
    assert(t.filter(keep) =~= Seq::<E>::empty());
}

/// The elements of `first` that are not in `second`, in order, each paired
/// with `state`.
pub fn elements_only_in<E: Element>(first: &Vec<E>, second: &Vec<E>, state: ElementState) -> (r: Vec<(E, ElementState)>)
    ensures
        r@ == only_in(first@, second@, state),
{
    let mut out: Vec<(E, ElementState)> = Vec::new();
    let mut i: usize = 0;
    while i < first.len()
        invariant
            i <= first.len(),
            out@ == only_in(first@.subrange(0, i as int), second@, state),
        decreases first.len() - i,
    {
        let e = first[i];
        proof {
            let s = first@.subrange(0, i as int + 1);
            assert(s.drop_last() =~= first@.subrange(0, i as int));
            reveal_with_fuel(Seq::filter, 1);
        }
        if !holds(second, e) {
            out.push((e, state));
        }
        i = i + 1;
    }
    assert(first@.subrange(0, first.len() as int) =~= first@);
    out
}

/// A state with a composite representation: the elements in a state other
/// than the ground one (keys or buttons that are down).
pub trait CompositeState<E: Element> {
    /// Representation of the composite state.
    type Composite;

    /// The elements that are down.
    spec fn down_elements(&self) -> Seq<E>;

    fn composite(&self) -> &Self::Composite;
}

/// Provides a state for an input element.
pub trait InputState<E: Element> {
    /// The state of `element`.
    spec fn state_of(&self, element: E) -> E::State;

    fn state(&self, element: E) -> (r: E::State)
        ensures
            r == self.state_of(element),
    ;
}

/// Provides snapshotting for an input device: it keeps a live state, which
/// `React` updates, and a snapshot state, which this trait updates.
pub trait Snapshot {
    /// Snapshots the live state.
    fn snapshot(&mut self);
}

/// An input device with a live state and a snapshot state.
pub trait Input: React + Snapshot {
    /// Aggregate state for the input device.
    type State;

    /// The live state.
    spec fn live_state(&self) -> Self::State;

    /// The snapshot state.
    spec fn snapshot_state(&self) -> Self::State;

    fn live(&self) -> (r: &Self::State)
        ensures
            *r == self.live_state(),
    ;

    fn snapshot(&self) -> (r: &Self::State)
        ensures
            *r == self.snapshot_state(),
    ;
}

/// Provides a transition state for an input element.
pub trait InputTransition<E: Element> {
    fn transition(&self, element: E) -> Option<E::State>;
}

impl<E: Element, T: Input> InputTransition<E> for T where T::State: InputState<E> {
    /// `None` where the element is in the same state live and in the
    /// snapshot, else its live state.
    fn transition(&self, element: E) -> (r: Option<E::State>)
        ensures
            r == (if self.live_state().state_of(element) == self.snapshot_state().state_of(
                element,
            ) {
                None
            } else {
                Some(self.live_state().state_of(element))
            }),
    {
        let live = Input::live(self).state(element);
        let snapshot = Input::snapshot(self).state(element);
        E::State::transition(live, snapshot)
    }
}

/// Determines the difference in state for an input element.
pub trait InputDifference<E: Element> {
    /// Representation of the differences in state.
    type Difference;

    /// Whether `difference` is the difference in state between the live
    /// state and the snapshot.
    spec fn is_difference(&self, difference: Self::Difference) -> bool;

    fn difference(&self) -> (r: Self::Difference)
        ensures
            self.is_difference(r),
    ;
}

} // verus!
