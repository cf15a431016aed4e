//! Transitions, as far as an execution reads them.

use crate::native::FieldValue;
use vstd::prelude::*;

verus! {

/// The mathematical content of a transition: its ID and its commitments.
pub struct TransitionState {
    pub id: nat,
    pub commitments: Seq<nat>,
}

/// One transition of an execution: the ID that names it, and the
/// commitments of the records that it outputs.
#[derive(Clone, Debug, PartialEq, Eq)]
pub struct Transition {
    pub(crate) id: FieldValue,
    pub(crate) commitments: Vec<FieldValue>,
}

impl View for Transition {
    type V = TransitionState;

    closed spec fn view(&self) -> TransitionState {
        TransitionState {
            id: self.id@,
            commitments: self.commitments@.map_values(|c: FieldValue| c@),
        }
    }
}

impl Transition {
    /// The ID of the transition, as an element.
    pub closed spec fn spec_id(&self) -> FieldValue {
        self.id
    }

    /// The commitments of the transition, as elements.
    pub closed spec fn spec_commitments(&self) -> Seq<FieldValue> {
        self.commitments@
    }

    /// The elements that a transition holds are those of its content.
    pub proof fn lemma_view(self)
        ensures
            self@.id == self.spec_id()@,
            self@.commitments == self.spec_commitments().map_values(|c: FieldValue| c@),
    {
    }

    /// A transition with the given ID and commitments.
    pub fn new(id: FieldValue, commitments: Vec<FieldValue>) -> (r: Transition)
        ensures
            r.spec_id() == id,
            r.spec_commitments() == commitments@,
    {
        Transition { id, commitments }
    }

    /// The ID of the transition.
    pub fn id(&self) -> (r: &FieldValue)
        ensures
            *r == self.spec_id(),
    {
        &self.id
    }

    /// The commitments of the transition.
    pub fn commitments(&self) -> (r: &Vec<FieldValue>)
        ensures
            r@ == self.spec_commitments(),
    {
        &self.commitments
    }
}

} // verus!
