//! Executions: the transitions of one program run, in their order.
//!
//! The transitions are kept in an `indexmap::IndexMap`, keyed by the limbs of
//! their ID, so that a transition is found by its ID and by its position
//! alike. No two transitions of an execution have the same ID.

use crate::native::FieldValue;
use crate::network::Network;
use crate::transition::Transition;
use core::marker::PhantomData;
use indexmap::IndexMap;
use vstd::prelude::*;

verus! {

/// The ordered map of the crate `indexmap`. Nothing of its inside is known
/// here; what it holds is named by `map_entries`.
#[verifier::external_type_specification]
#[verifier::external_body]
#[verifier::reject_recursive_types(K)]
#[verifier::reject_recursive_types(V)]
#[verifier::reject_recursive_types(S)]
pub struct ExIndexMap<K, V, S>(IndexMap<K, V, S>);

/// The entries that a map of transitions holds, in their order.
pub uninterp spec fn map_entries(map: IndexMap<(u64, u64, u64, u64), Transition>) -> Seq<
    ((u64, u64, u64, u64), Transition),
>;

/// Whether some entry has the given key.
pub open spec fn has_key(
    entries: Seq<((u64, u64, u64, u64), Transition)>,
    key: (u64, u64, u64, u64),
) -> bool {
    exists|i: int| 0 <= i < entries.len() && (#[trigger] entries[i]).0 == key
}

/// Makes an empty map.
///
/// Trusted: calls `IndexMap::new`. The contract claims that the new map
/// holds no entry.
#[verifier::external_body]
fn map_new() -> (r: IndexMap<(u64, u64, u64, u64), Transition>)
    ensures
        map_entries(r).len() == 0,
{
    IndexMap::new()
}

/// Inserts an entry.
///
/// Trusted: calls `IndexMap::insert`. The contract claims what the crate
/// documents: where an entry has the key already, it keeps its place and
/// its value is replaced, and the old value is handed back; otherwise the
/// entry is added last, and nothing is handed back.
#[verifier::external_body]
fn map_insert(
    map: &mut IndexMap<(u64, u64, u64, u64), Transition>,
    key: (u64, u64, u64, u64),
    value: Transition,
) -> (r: Option<Transition>)
    ensures
        !has_key(map_entries(*old(map)), key) ==> r is None && map_entries(*final(map))
            == map_entries(*old(map)).push((key, value)),
        has_key(map_entries(*old(map)), key) ==> exists|i: int|
            0 <= i < map_entries(*old(map)).len() && (#[trigger] map_entries(*old(map))[i]).0
                == key && r == Some(map_entries(*old(map))[i].1) && map_entries(*final(map))
                == map_entries(*old(map)).update(i, (key, value)),
{
    map.insert(key, value)
}

/// Whether the map has an entry of the given key.
///
/// Trusted: calls `IndexMap::contains_key`.
#[verifier::external_body]
fn map_contains_key(
    map: &IndexMap<(u64, u64, u64, u64), Transition>,
    key: &(u64, u64, u64, u64),
) -> (r: bool)
    ensures
        r == has_key(map_entries(*map), *key),
{
    map.contains_key(key)
}

/// The value of the entry of the given key.
///
/// Trusted: calls `IndexMap::get`. The contract claims that a value comes
/// back exactly where an entry has the key, and that it is the value of
/// such an entry.
#[verifier::external_body]
fn map_get<'a>(
    map: &'a IndexMap<(u64, u64, u64, u64), Transition>,
    key: &(u64, u64, u64, u64),
) -> (r: Option<&'a Transition>)
    ensures
        r is Some == has_key(map_entries(*map), *key),
        r matches Some(value) ==> exists|i: int|
            0 <= i < map_entries(*map).len() && (#[trigger] map_entries(*map)[i]).0 == *key
                && map_entries(*map)[i].1 == *value,
{
    map.get(key)
}

/// The value of the entry at the given position.
///
/// Trusted: calls `IndexMap::get_index` and picks the value of the pair.
/// The contract claims that the positions below the map's length are
/// valid, and no others.
#[verifier::external_body]
fn map_get_index<'a>(map: &'a IndexMap<(u64, u64, u64, u64), Transition>, index: usize) -> (r:
    Option<&'a Transition>)
    ensures
        index < map_entries(*map).len() ==> r == Some(&map_entries(*map)[index as int].1),
        index >= map_entries(*map).len() ==> r is None,
{
    map.get_index(index).map(|(_, value)| value)
}

/// Removes the last entry.
///
/// Trusted: calls `IndexMap::pop`. The contract claims that an empty map
/// stays as it is and hands nothing back, and that any other map loses
/// its last entry, which is handed back, and keeps the others in order.
#[verifier::external_body]
fn map_pop(map: &mut IndexMap<(u64, u64, u64, u64), Transition>) -> (r: Option<
    ((u64, u64, u64, u64), Transition),
>)
    ensures
        map_entries(*old(map)).len() == 0 ==> r is None && map_entries(*final(map))
            == map_entries(*old(map)),
        map_entries(*old(map)).len() > 0 ==> r == Some(map_entries(*old(map)).last())
            && map_entries(*final(map)) == map_entries(*old(map)).drop_last(),
{
    map.pop()
}

/// The number of entries.
///
/// Trusted: calls `IndexMap::len`.
#[verifier::external_body]
fn map_len(map: &IndexMap<(u64, u64, u64, u64), Transition>) -> (r: usize)
    ensures
        r == map_entries(*map).len(),
{
    map.len()
}

/// Whether the map holds no entry.
///
/// Trusted: calls `IndexMap::is_empty`.
#[verifier::external_body]
fn map_is_empty(map: &IndexMap<(u64, u64, u64, u64), Transition>) -> (r: bool)
    ensures
        r == (map_entries(*map).len() == 0),
{
    map.is_empty()
}

/// The values of the entries, in their order.
///
/// Trusted: calls `IndexMap::values` and collects what the iterator
/// yields.
#[verifier::external_body]
fn map_values<'a>(map: &'a IndexMap<(u64, u64, u64, u64), Transition>) -> (r: Vec<
    &'a Transition,
>)
    ensures
        r@.len() == map_entries(*map).len(),
        forall|i: int| 0 <= i < r@.len() ==> *(#[trigger] r@[i]) == map_entries(*map)[i].1,
{
    map.values().collect()
}

/// The values of the entries, in their order, out of a map that is given
/// up.
///
/// Trusted: calls `IndexMap::into_values` and collects what the iterator
/// yields.
#[verifier::external_body]
fn map_into_values(map: IndexMap<(u64, u64, u64, u64), Transition>) -> (r: Vec<Transition>)
    ensures
        r@ == map_entries(map).map_values(|e: ((u64, u64, u64, u64), Transition)| e.1),
{
    map.into_values().collect()
}

/// Why an operation on an execution failed.
#[derive(Clone, Copy, Debug, PartialEq, Eq, Structural)]
pub enum ExecutionError {
    /// An execution cannot be initialized from an empty list of
    /// transitions.
    EmptyTransitions,
    /// An execution cannot be initialized with an edition other than the
    /// network's.
    EditionMismatch,
    /// The execution has no transition at the given position.
    IndexOutOfBounds(usize),
    /// No transition can be popped from an empty execution.
    EmptyExecution,
}

/// The key under which a transition is kept: the limbs of its ID.
pub open spec fn key_of(id: FieldValue) -> (u64, u64, u64, u64) {
    (id.spec_limbs()[0], id.spec_limbs()[1], id.spec_limbs()[2], id.spec_limbs()[3])
}

/// Whether no two transitions have the same ID.
pub open spec fn ids_are_distinct(transitions: Seq<Transition>) -> bool {
    forall|i: int, j: int|
        0 <= i < j < transitions.len() ==> (#[trigger] transitions[i]).spec_id() != (
        #[trigger] transitions[j]).spec_id()
}

/// Whether some transition has the given ID.
pub open spec fn has_id(transitions: Seq<Transition>, id: FieldValue) -> bool {
    exists|i: int| 0 <= i < transitions.len() && (#[trigger] transitions[i]).spec_id() == id
}

/// The position of a transition that has the given ID, where there is one.
pub open spec fn position_of(transitions: Seq<Transition>, id: FieldValue) -> int
    recommends
        has_id(transitions, id),
{
    choose|i: int| 0 <= i < transitions.len() && (#[trigger] transitions[i]).spec_id() == id
}

/// The transitions after one more was added: it takes the place of the
/// transition that has its ID, where there is one, and comes last
/// otherwise.
pub open spec fn with_transition(transitions: Seq<Transition>, transition: Transition) -> Seq<
    Transition,
> {
    if has_id(transitions, transition.spec_id()) {
        transitions.update(position_of(transitions, transition.spec_id()), transition)
    } else {
        transitions.push(transition)
    }
}

/// The transitions of an execution that a list is collected into, one after
/// the other.
pub open spec fn collected(list: Seq<Transition>) -> Seq<Transition>
    decreases list.len(),
{
    if list.len() == 0 {
        Seq::empty()
    } else {
        with_transition(collected(list.drop_last()), list.last())
    }
}

/// The commitments of a sequence of transitions, in their order.
pub open spec fn all_commitments(transitions: Seq<Transition>) -> Seq<FieldValue>
    decreases transitions.len(),
{
    if transitions.len() == 0 {
        Seq::empty()
    } else {
        all_commitments(transitions.drop_last()) + transitions.last().spec_commitments()
    }
}

/// Adding a transition keeps the IDs distinct.
pub proof fn lemma_with_transition_distinct(transitions: Seq<Transition>, transition: Transition)
    requires
        ids_are_distinct(transitions),
    ensures
        ids_are_distinct(with_transition(transitions, transition)),
        has_id(with_transition(transitions, transition), transition.spec_id()),
{
    let after = with_transition(transitions, transition);
    if has_id(transitions, transition.spec_id()) {
        let p = position_of(transitions, transition.spec_id());
        assert(after[p].spec_id() == transition.spec_id());
        assert forall|i: int, j: int| 0 <= i < j < after.len() implies (#[trigger] after[i]).spec_id()
            != (#[trigger] after[j]).spec_id() by {
            assert(transitions[i].spec_id() != transitions[j].spec_id());
        }
    } else {
        assert(after[transitions.len() as int].spec_id() == transition.spec_id());
        assert forall|i: int, j: int| 0 <= i < j < after.len() implies (#[trigger] after[i]).spec_id()
            != (#[trigger] after[j]).spec_id() by {
            if j < transitions.len() {
                assert(transitions[i].spec_id() != transitions[j].spec_id());
            } else {
                assert(transitions[i].spec_id() != transition.spec_id());
            }
        }
    }
}

/// What is collected from a list has distinct IDs.
pub proof fn lemma_collected_distinct(list: Seq<Transition>)
    ensures
        ids_are_distinct(collected(list)),
        list.len() > 0 ==> collected(list).len() > 0,
    decreases list.len(),
{
    if list.len() > 0 {
        lemma_collected_distinct(list.drop_last());
        lemma_with_transition_distinct(collected(list.drop_last()), list.last());
    }
}

/// The mathematical content of an execution.
pub struct ExecutionState {
    pub edition: u16,
    pub transitions: Seq<Transition>,
}

/// The transitions of one program run on the network `N`.
pub struct Execution<N: Network> {
    /// The edition.
    edition: u16,
    /// The transitions.
    transitions: IndexMap<(u64, u64, u64, u64), Transition>,
    network: PhantomData<N>,
}

impl<N: Network> View for Execution<N> {
    type V = ExecutionState;

    closed spec fn view(&self) -> ExecutionState {
        ExecutionState {
            edition: self.edition,
            transitions: map_entries(self.transitions).map_values(
                |e: ((u64, u64, u64, u64), Transition)| e.1,
            ),
        }
    }
}

impl<N: Network> Execution<N> {
    /// Every transition is kept under the limbs of its ID, and no two are
    /// kept under the same key.
    #[verifier::type_invariant]
    closed spec fn well_formed(&self) -> bool {
        Self::keyed(map_entries(self.transitions))
    }

    /// Whether every entry is kept under the limbs of its ID, and no two
    /// under the same key.
    closed spec fn keyed(entries: Seq<((u64, u64, u64, u64), Transition)>) -> bool {
        &&& forall|i: int|
            0 <= i < entries.len() ==> (#[trigger] entries[i]).0 == key_of(entries[i].1.spec_id())
        &&& forall|i: int, j: int|
            0 <= i < j < entries.len() ==> (#[trigger] entries[i]).0 != (#[trigger] entries[j]).0
    }

    /// Initialize a new `Execution` instance.
    pub fn new() -> (r: Self)
        ensures
            r@ == (ExecutionState { edition: N::EDITION, transitions: Seq::empty() }),
    {
        let transitions = map_new();
        proof {
            assert(map_entries(transitions).map_values(
                |e: ((u64, u64, u64, u64), Transition)| e.1,
            ) =~= Seq::empty());
        }
        Self { edition: N::EDITION, transitions, network: PhantomData }
    }

    /// Initializes a new `Execution` instance with the given transitions.
    ///
    /// An empty list is refused, and so is an edition other than the
    /// network's. The transitions are taken in one after the other; one
    /// that has the ID of an earlier one takes its place.
    pub fn from(edition: u16, transitions: Vec<Transition>) -> (r: Result<Self, ExecutionError>)
        ensures
            transitions@.len() == 0 ==> r == Err::<Self, _>(ExecutionError::EmptyTransitions),
            transitions@.len() > 0 && edition != N::EDITION ==> r == Err::<Self, _>(
                ExecutionError::EditionMismatch,
            ),
            transitions@.len() > 0 && edition == N::EDITION ==> r is Ok && r.unwrap()@ == (
            ExecutionState { edition, transitions: collected(transitions@) }),
    {
        // Ensure the transitions is not empty.
        if transitions.is_empty() {
            return Err(ExecutionError::EmptyTransitions);
        }
        if edition != N::EDITION {
            return Err(ExecutionError::EditionMismatch);
        }
        let mut execution = Self::new();
        let ghost list = transitions@;
        for transition in it: transitions.into_iter()
            invariant
                it.seq() == list,
                execution@ == (ExecutionState {
                    edition,
                    transitions: collected(list.take(it.index())),
                }),
        {
            proof {
                assert(list.take(it.index() + 1).drop_last() =~= list.take(it.index()));
            }
            execution.push(transition);
        }
        proof {
            assert(list.take(list.len() as int) =~= list);
        }
        // Return the new `Execution` instance.
        Ok(execution)
    }

    /// Returns the edition.
    pub fn edition(&self) -> (r: u16)
        ensures
            r == self@.edition,
    {
        self.edition
    }

    /// Moves the execution out and leaves an empty one in its place, so
    /// that its parts can be changed apart and put back as a whole.
    fn take(&mut self) -> (r: Self)
        ensures
            r == *old(self),
            r.well_formed(),
    {
        proof {
            use_type_invariant(&*self);
        }
        let mut taken = Self::new();
        core::mem::swap(self, &mut taken);
        taken
    }

    /// The transitions of the entries, and how keys and IDs correspond.
    proof fn lemma_entries(self)
        requires
            self.well_formed(),
        ensures
            self@.transitions.len() == map_entries(self.transitions).len(),
            forall|i: int|
                0 <= i < self@.transitions.len() ==> (#[trigger] self@.transitions[i])
                    == map_entries(self.transitions)[i].1,
            ids_are_distinct(self@.transitions),
            forall|id: FieldValue|
                has_id(self@.transitions, id) == has_key(
                    map_entries(self.transitions),
                    #[trigger] key_of(id),
                ),
    {
        let entries = map_entries(self.transitions);
        let transitions = self@.transitions;
        assert forall|i: int, j: int| 0 <= i < j < transitions.len() implies (
        #[trigger] transitions[i]).spec_id() != (#[trigger] transitions[j]).spec_id() by {
            assert(entries[i].0 != entries[j].0);
        }
        assert forall|id: FieldValue|
            has_id(transitions, id) == has_key(entries, #[trigger] key_of(id)) by {
            if has_id(transitions, id) {
                let i = position_of(transitions, id);
                assert(entries[i].0 == key_of(id));
            }
            if has_key(entries, key_of(id)) {
                let i = choose|i: int| 0 <= i < entries.len() && (#[trigger] entries[i]).0 == key_of(id);
                id.lemma_limbs_determine(entries[i].1.spec_id());
                assert(transitions[i].spec_id() == id);
            }
        }
    }

    /// Returns `true` if the execution contains the transition for the given transition ID.
    pub fn contains_transition(&self, transition_id: &FieldValue) -> (r: bool)
        ensures
            r == has_id(self@.transitions, *transition_id),
    {
        proof {
            use_type_invariant(self);
            self.lemma_entries();
        }
        map_contains_key(&self.transitions, &Self::key(transition_id))
    }

    /// Returns the `Transition` corresponding to the given transition ID.
    pub fn find(&self, id: &FieldValue) -> (r: Option<&Transition>)
        ensures
            r is Some == has_id(self@.transitions, *id),
            r matches Some(transition) ==> *transition == self@.transitions[position_of(
                self@.transitions,
                *id,
            )],
    {
        proof {
            use_type_invariant(self);
            self.lemma_entries();
        }
        let found = map_get(&self.transitions, &Self::key(id));
        proof {
            if let Some(transition) = found {
                let entries = map_entries(self.transitions);
                let i = choose|i: int|
                    0 <= i < entries.len() && (#[trigger] entries[i]).0 == key_of(*id)
                        && entries[i].1 == *transition;
                let p = position_of(self@.transitions, *id);
                assert(entries[p].0 == key_of(*id));
                if i < p {
                    assert(entries[i].0 != entries[p].0);
                }
                if p < i {
                    assert(entries[p].0 != entries[i].0);
                }
            }
        }
        found
    }

    /// Returns the `Transition` at the given index.
    pub fn get(&self, index: usize) -> (r: Result<&Transition, ExecutionError>)
        ensures
            index < self@.transitions.len() ==> r == Ok::<_, ExecutionError>(
                &self@.transitions[index as int],
            ),
            index >= self@.transitions.len() ==> r == Err::<&Transition, _>(
                ExecutionError::IndexOutOfBounds(index),
            ),
    {
        proof {
            use_type_invariant(self);
            self.lemma_entries();
        }
        match map_get_index(&self.transitions, index) {
            Some(transition) => Ok(transition),
            None => Err(ExecutionError::IndexOutOfBounds(index)),
        }
    }

    /// Returns the next `Transition` in the execution, which is the last
    /// one. An empty execution has none: the position before the first is
    /// then out of bounds.
    pub fn peek(&self) -> (r: Result<&Transition, ExecutionError>)
        ensures
            self@.transitions.len() > 0 ==> r == Ok::<_, ExecutionError>(
                &self@.transitions.last(),
            ),
            self@.transitions.len() == 0 ==> r == Err::<&Transition, _>(
                ExecutionError::IndexOutOfBounds(usize::MAX),
            ),
    {
        self.get(self.len().wrapping_sub(1))
    }

    /// Appends the given `Transition` to the execution. A transition that
    /// has the ID of one in the execution takes its place instead.
    pub fn push(&mut self, transition: Transition)
        ensures
            final(self)@ == (ExecutionState {
                edition: old(self)@.edition,
                transitions: with_transition(old(self)@.transitions, transition),
            }),
    {
        let Execution { edition, mut transitions, network } = self.take();
        let key = Self::key(transition.id());
        let ghost before = map_entries(transitions);
        map_insert(&mut transitions, key, transition);
        proof {
            old(self).lemma_entries();
            let after = map_entries(transitions);
            let next = Execution::<N> { edition, transitions, network };
            if has_key(before, key) {
                let i = choose|i: int|
                    0 <= i < before.len() && (#[trigger] before[i]).0 == key && after
                        == before.update(i, (key, transition));
                let p = position_of(old(self)@.transitions, transition.spec_id());
                assert(before[p].0 == key);
                if i < p {
                    assert(before[i].0 != before[p].0);
                }
                if p < i {
                    assert(before[p].0 != before[i].0);
                }
                assert(next@.transitions =~= old(self)@.transitions.update(p, transition));
                assert forall|a: int, b: int| 0 <= a < b < after.len() implies (
                #[trigger] after[a]).0 != (#[trigger] after[b]).0 by {
                    assert(before[a].0 != before[b].0);
                }
            } else {
                assert(next@.transitions =~= old(self)@.transitions.push(transition));
                assert forall|a: int, b: int| 0 <= a < b < after.len() implies (
                #[trigger] after[a]).0 != (#[trigger] after[b]).0 by {
                    if b < before.len() {
                        assert(before[a].0 != before[b].0);
                    } else {
                        assert(before[a].0 != key);
                    }
                }
            }
        }
        *self = Execution { edition, transitions, network };
    }

    /// Pops the last `Transition` from the execution.
    pub fn pop(&mut self) -> (r: Result<Transition, ExecutionError>)
        ensures
            old(self)@.transitions.len() == 0 ==> r == Err::<Transition, _>(
                ExecutionError::EmptyExecution,
            ) && final(self)@ == old(self)@,
            old(self)@.transitions.len() > 0 ==> r == Ok::<_, ExecutionError>(
                old(self)@.transitions.last(),
            ) && final(self)@ == (ExecutionState {
                edition: old(self)@.edition,
                transitions: old(self)@.transitions.drop_last(),
            }),
    {
        let Execution { edition, mut transitions, network } = self.take();
        let ghost before = map_entries(transitions);
        let popped = map_pop(&mut transitions);
        proof {
            old(self).lemma_entries();
            let after = map_entries(transitions);
            let next = Execution::<N> { edition, transitions, network };
            if before.len() > 0 {
                assert(next@.transitions =~= old(self)@.transitions.drop_last());
                assert forall|a: int, b: int| 0 <= a < b < after.len() implies (
                #[trigger] after[a]).0 != (#[trigger] after[b]).0 by {
                    assert(before[a].0 != before[b].0);
                }
            }
        }
        *self = Execution { edition, transitions, network };
        match popped {
            Some((_, transition)) => Ok(transition),
            None => Err(ExecutionError::EmptyExecution),
        }
    }

    /// Returns the number of transitions in the execution.
    pub fn len(&self) -> (r: usize)
        ensures
            r == self@.transitions.len(),
    {
        map_len(&self.transitions)
    }

    /// Returns `true` if the execution is empty.
    pub fn is_empty(&self) -> (r: bool)
        ensures
            r == (self@.transitions.len() == 0),
    {
        map_is_empty(&self.transitions)
    }

    /// Returns the underlying transitions, in their order, and gives the
    /// execution up.
    pub fn into_transitions(self) -> (r: Vec<Transition>)
        ensures
            r@ == self@.transitions,
    {
        map_into_values(self.transitions)
    }

    /// Returns the underlying transitions, in their order.
    pub fn transitions(&self) -> (r: Vec<&Transition>)
        ensures
            r@.len() == self@.transitions.len(),
            forall|i: int| 0 <= i < r@.len() ==> *(#[trigger] r@[i]) == self@.transitions[i],
            ids_are_distinct(self@.transitions),
    {
        proof {
            use_type_invariant(self);
            self.lemma_entries();
        }
        map_values(&self.transitions)
    }

    /// Returns the commitments of all transitions, in their order.
    pub fn commitments(&self) -> (r: Vec<&FieldValue>)
        ensures
            r@.len() == all_commitments(self@.transitions).len(),
            forall|i: int|
                0 <= i < r@.len() ==> *(#[trigger] r@[i]) == all_commitments(
                    self@.transitions,
                )[i],
    {
        let transitions = self.transitions();
        let mut commitments: Vec<&FieldValue> = Vec::new();
        let mut i: usize = 0;
        while i < transitions.len()
            invariant
                i <= transitions@.len() == self@.transitions.len(),
                forall|k: int|
                    0 <= k < transitions@.len() ==> *(#[trigger] transitions@[k])
                        == self@.transitions[k],
                commitments@.len() == all_commitments(self@.transitions.take(i as int)).len(),
                forall|k: int|
                    0 <= k < commitments@.len() ==> *(#[trigger] commitments@[k])
                        == all_commitments(self@.transitions.take(i as int))[k],
            decreases transitions.len() - i,
        {
            let inner = transitions[i].commitments();
            let ghost done = all_commitments(self@.transitions.take(i as int));
            proof {
                assert(self@.transitions.take(i + 1).drop_last() =~= self@.transitions.take(
                    i as int,
                ));
            }
            let mut j: usize = 0;
            while j < inner.len()
                invariant
                    j <= inner@.len(),
                    inner@ == self@.transitions[i as int].spec_commitments(),
                    commitments@.len() == done.len() + j,
                    forall|k: int|
                        0 <= k < commitments@.len() ==> *(#[trigger] commitments@[k]) == (done
                            + inner@)[k],
                decreases inner.len() - j,
            {
                commitments.push(&inner[j]);
                j += 1;
            }
            i += 1;
        }
        proof {
            assert(self@.transitions.take(i as int) =~= self@.transitions);
        }
        commitments
    }

    /// Returns the map that holds the transitions, for reading.
    pub fn deref(&self) -> (r: &IndexMap<(u64, u64, u64, u64), Transition>)
        ensures
            map_entries(*r).map_values(|e: ((u64, u64, u64, u64), Transition)| e.1)
                == self@.transitions,
    {
        &self.transitions
    }

    /// The key under which a transition of the given ID is kept.
    fn key(id: &FieldValue) -> (r: (u64, u64, u64, u64))
        ensures
            r == key_of(*id),
    {
        let limbs = id.to_limbs();
        (limbs[0], limbs[1], limbs[2], limbs[3])
    }
}

} // verus!
