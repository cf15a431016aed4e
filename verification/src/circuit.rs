//! The constraint-system backend.
//!
//! A `Circuit` accumulates what one synthesis run allocates and enforces:
//! the constants, the public and the private variables, each with the value
//! it is bound to, and the constraints, each a product relation `a * b = c`
//! over values. A violated constraint is registered like any other; it only
//! shows when satisfaction is queried. Named scopes mark a point in the run,
//! so that what an operation consumed can be measured from there.

use crate::boolean::{bit, Boolean};
use crate::halt::Halt;
use crate::mode::Mode;
use crate::native::{field_mul, FieldValue};
use vstd::prelude::*;

verus! {

/// The relation `a * b = c` between three field elements.
pub struct Relation {
    pub a: nat,
    pub b: nat,
    pub c: nat,
}

impl Relation {
    /// Whether the product of the first two elements is the third.
    pub open spec fn holds(self) -> bool {
        field_mul(self.a, self.b) == self.c
    }
}

/// How many constants, public variables, private variables and constraints
/// a constraint system holds.
pub struct Tally {
    pub constants: nat,
    pub public: nat,
    pub private: nat,
    pub constraints: nat,
}

impl Tally {
    /// The tally of an empty constraint system.
    pub open spec fn zero() -> Tally {
        Tally { constants: 0, public: 0, private: 0, constraints: 0 }
    }

    /// The tally after `more` was consumed on top of this one.
    pub open spec fn plus(self, more: Tally) -> Tally {
        Tally {
            constants: self.constants + more.constants,
            public: self.public + more.public,
            private: self.private + more.private,
            constraints: self.constraints + more.constraints,
        }
    }
}

/// An open scope: its name and the tally of the system when it was entered.
pub struct ScopeState {
    pub name: Seq<char>,
    pub start: Tally,
}

/// The mathematical content of a constraint system.
#[verifier::ext_equal]
pub struct CircuitState {
    /// The values of the constants, in the order of their allocation.
    pub constants: Seq<nat>,
    /// The values of the public variables, in the order of their allocation.
    pub public: Seq<nat>,
    /// The values of the private variables, in the order of their allocation.
    pub private: Seq<nat>,
    /// The constraints, in the order of their registration.
    pub constraints: Seq<Relation>,
    /// The open scopes, the innermost last.
    pub scopes: Seq<ScopeState>,
}

impl CircuitState {
    /// The system that holds nothing.
    pub open spec fn empty() -> CircuitState {
        CircuitState {
            constants: Seq::empty(),
            public: Seq::empty(),
            private: Seq::empty(),
            constraints: Seq::empty(),
            scopes: Seq::empty(),
        }
    }

    /// The system after a value of the given mode was allocated.
    pub open spec fn allocate(self, mode: Mode, value: nat) -> CircuitState {
        match mode {
            Mode::Constant => CircuitState { constants: self.constants.push(value), ..self },
            Mode::Public => CircuitState { public: self.public.push(value), ..self },
            Mode::Private => CircuitState { private: self.private.push(value), ..self },
        }
    }

    /// The system after a constraint was registered.
    pub open spec fn enforce(self, relation: Relation) -> CircuitState {
        CircuitState { constraints: self.constraints.push(relation), ..self }
    }

    /// The system after a scope of the given name was entered.
    pub open spec fn enter_scope(self, name: Seq<char>) -> CircuitState {
        CircuitState {
            scopes: self.scopes.push(ScopeState { name, start: self.tally() }),
            ..self
        }
    }

    /// The system after the innermost scope was left.
    pub open spec fn exit_scope(self) -> CircuitState
        recommends
            self.scopes.len() > 0,
    {
        CircuitState { scopes: self.scopes.drop_last(), ..self }
    }

    /// How much the system holds.
    pub open spec fn tally(self) -> Tally {
        Tally {
            constants: self.constants.len(),
            public: self.public.len(),
            private: self.private.len(),
            constraints: self.constraints.len(),
        }
    }

    /// How much the system held when the innermost open scope was entered;
    /// nothing, where no scope is open.
    pub open spec fn scope_start(self) -> Tally {
        if self.scopes.len() > 0 {
            self.scopes.last().start
        } else {
            Tally::zero()
        }
    }

    /// Whether every open scope was entered when the system held no more
    /// than it holds now.
    pub open spec fn scopes_are_behind(self) -> bool {
        forall|i: int|
            0 <= i < self.scopes.len() ==> {
                &&& (#[trigger] self.scopes[i]).start.constants <= self.constants.len()
                &&& self.scopes[i].start.public <= self.public.len()
                &&& self.scopes[i].start.private <= self.private.len()
                &&& self.scopes[i].start.constraints <= self.constraints.len()
            }
    }

    /// How much was allocated and enforced since the innermost open scope
    /// was entered.
    pub open spec fn tally_in_scope(self) -> Tally
        recommends
            self.scopes_are_behind(),
    {
        Tally {
            constants: (self.constants.len() - self.scope_start().constants) as nat,
            public: (self.public.len() - self.scope_start().public) as nat,
            private: (self.private.len() - self.scope_start().private) as nat,
            constraints: (self.constraints.len() - self.scope_start().constraints) as nat,
        }
    }

    /// Whether every constraint holds.
    pub open spec fn is_satisfied(self) -> bool {
        forall|i: int| 0 <= i < self.constraints.len() ==> (#[trigger] self.constraints[i]).holds()
    }

    /// Whether every constraint registered since the innermost open scope
    /// was entered holds.
    pub open spec fn is_satisfied_in_scope(self) -> bool {
        forall|i: int|
            self.scope_start().constraints <= i < self.constraints.len() ==> (
            #[trigger] self.constraints[i]).holds()
    }
}

/// Registering a constraint adds one constraint and keeps everything else;
/// the system is satisfied afterwards exactly if it was before and the new
/// constraint holds, and the same is true within the innermost scope.
pub proof fn lemma_enforce(state: CircuitState, relation: Relation)
    ensures
        state.enforce(relation).tally() == state.tally().plus(
            Tally { constants: 0, public: 0, private: 0, constraints: 1 },
        ),
        state.enforce(relation).is_satisfied() == (state.is_satisfied() && relation.holds()),
        state.scopes_are_behind() ==> state.enforce(relation).scopes_are_behind(),
        state.scopes_are_behind() ==> state.enforce(relation).is_satisfied_in_scope() == (
        state.is_satisfied_in_scope() && relation.holds()),
{
    let after = state.enforce(relation);
    let n = state.constraints.len() as int;
    assert(after.constraints[n] == relation);
    assert(forall|i: int| 0 <= i < n ==> after.constraints[i] == state.constraints[i]);
    if state.is_satisfied() && relation.holds() {
        assert(after.is_satisfied());
    } else if !state.is_satisfied() {
        let i = choose|i: int| 0 <= i < n && !(#[trigger] state.constraints[i]).holds();
        assert(!after.constraints[i].holds());
    }
    if state.scopes_are_behind() {
        assert forall|i: int| 0 <= i < after.scopes.len() implies (
        #[trigger] after.scopes[i]).start.constraints <= after.constraints.len() by {
            assert(state.scopes[i].start.constraints <= n);
        }
        let start = state.scope_start().constraints as int;
        if state.scopes.len() > 0 {
            assert(state.scopes[state.scopes.len() - 1].start.constraints <= n);
        }
        assert(start <= n);
        if state.is_satisfied_in_scope() && relation.holds() {
            assert(after.is_satisfied_in_scope());
        } else if !state.is_satisfied_in_scope() {
            let i = choose|i: int| start <= i < n && !(#[trigger] state.constraints[i]).holds();
            assert(!after.constraints[i].holds());
        }
    }
}

/// Allocating a value adds one constant or variable, as the mode says, and
/// keeps everything else, satisfaction included.
pub proof fn lemma_allocate(state: CircuitState, mode: Mode, value: nat)
    ensures
        state.allocate(mode, value).tally() == state.tally().plus(
            Tally {
                constants: if mode is Constant {
                    1
                } else {
                    0
                },
                public: if mode is Public {
                    1
                } else {
                    0
                },
                private: if mode is Private {
                    1
                } else {
                    0
                },
                constraints: 0,
            },
        ),
        state.allocate(mode, value).is_satisfied() == state.is_satisfied(),
        state.allocate(mode, value).is_satisfied_in_scope() == state.is_satisfied_in_scope(),
        state.scopes_are_behind() ==> state.allocate(mode, value).scopes_are_behind(),
{
    let after = state.allocate(mode, value);
    assert(after.constraints == state.constraints);
    assert(after.scopes == state.scopes);
    if state.scopes_are_behind() {
        assert forall|i: int| 0 <= i < after.scopes.len() implies {
            &&& (#[trigger] after.scopes[i]).start.constants <= after.constants.len()
            &&& after.scopes[i].start.public <= after.public.len()
            &&& after.scopes[i].start.private <= after.private.len()
            &&& after.scopes[i].start.constraints <= after.constraints.len()
        } by {
            assert(state.scopes[i].start.constants <= state.constants.len());
        }
    }
}

/// A registered constraint: three values that should satisfy `a * b = c`.
#[derive(Clone, Copy, Debug)]
pub struct Constraint {
    pub a: FieldValue,
    pub b: FieldValue,
    pub c: FieldValue,
}

impl View for Constraint {
    type V = Relation;

    open spec fn view(&self) -> Relation {
        Relation { a: self.a@, b: self.b@, c: self.c@ }
    }
}

impl Constraint {
    /// Whether the constraint holds.
    pub fn is_satisfied(&self) -> (r: bool)
        ensures
            r == self@.holds(),
    {
        self.a.mul(&self.b).equals(&self.c)
    }
}

/// An open scope of a running synthesis.
struct Scope {
    name: String,
    constants: usize,
    public: usize,
    private: usize,
    constraints: usize,
}

impl View for Scope {
    type V = ScopeState;

    closed spec fn view(&self) -> ScopeState {
        ScopeState {
            name: self.name@,
            start: Tally {
                constants: self.constants as nat,
                public: self.public as nat,
                private: self.private as nat,
                constraints: self.constraints as nat,
            },
        }
    }
}

/// The constraint system of one synthesis run.
pub struct Circuit {
    constants: Vec<FieldValue>,
    public: Vec<FieldValue>,
    private: Vec<FieldValue>,
    constraints: Vec<Constraint>,
    satisfied: bool,
    scopes: Vec<Scope>,
}

impl View for Circuit {
    type V = CircuitState;

    closed spec fn view(&self) -> CircuitState {
        CircuitState {
            constants: self.constants@.map_values(|v: FieldValue| v@),
            public: self.public@.map_values(|v: FieldValue| v@),
            private: self.private@.map_values(|v: FieldValue| v@),
            constraints: self.constraints@.map_values(|c: Constraint| c@),
            scopes: self.scopes@.map_values(|s: Scope| s@),
        }
    }
}

impl Circuit {
    /// The satisfaction flag is true exactly while every constraint holds,
    /// and no open scope is ahead of the system.
    #[verifier::type_invariant]
    pub open spec fn well_formed(&self) -> bool {
        &&& self.satisfaction_flag() == self@.is_satisfied()
        &&& self@.scopes_are_behind()
    }

    /// The satisfaction flag that the system keeps.
    pub closed spec fn satisfaction_flag(&self) -> bool {
        self.satisfied
    }

    /// A constraint system that holds nothing, for a new synthesis run.
    pub fn new() -> (r: Circuit)
        ensures
            r@ == CircuitState::empty(),
    {
        Circuit {
            constants: Vec::new(),
            public: Vec::new(),
            private: Vec::new(),
            constraints: Vec::new(),
            satisfied: true,
            scopes: Vec::new(),
        }
    }

    /// Discards everything the system holds, scopes included.
    pub fn reset(&mut self)
        ensures
            final(self)@ == CircuitState::empty(),
    {
        *self = Circuit::new();
    }

    /// Moves the system out and leaves an empty one in its place, so that
    /// its parts can be changed apart and put back as a whole.
    fn take(&mut self) -> (r: Circuit)
        ensures
            r == *old(self),
            r.well_formed(),
    {
        proof {
            use_type_invariant(&*self);
        }
        let mut taken = Circuit::new();
        core::mem::swap(self, &mut taken);
        taken
    }

    /// Allocates a constant or a variable, as the mode says, bound to the
    /// given value.
    pub fn new_variable(&mut self, mode: Mode, value: FieldValue)
        ensures
            final(self)@ == old(self)@.allocate(mode, value@),
    {
        let Circuit { mut constants, mut public, mut private, constraints, satisfied, scopes } =
            self.take();
        match mode {
            Mode::Constant => constants.push(value),
            Mode::Public => public.push(value),
            Mode::Private => private.push(value),
        }
        proof {
            let next = Circuit { constants, public, private, constraints, satisfied, scopes };
            assert(next@ =~= old(self)@.allocate(mode, value@));
            lemma_allocate(old(self)@, mode, value@);
        }
        *self = Circuit { constants, public, private, constraints, satisfied, scopes };
    }

    /// Registers the constraint `a * b = c`. A constraint that the values
    /// violate is registered all the same, and leaves the system
    /// unsatisfied.
    pub fn enforce(&mut self, a: FieldValue, b: FieldValue, c: FieldValue)
        ensures
            final(self)@ == old(self)@.enforce(Relation { a: a@, b: b@, c: c@ }),
    {
        let Circuit { constants, public, private, mut constraints, satisfied, scopes } =
            self.take();
        let constraint = Constraint { a, b, c };
        let holds = constraint.is_satisfied();
        constraints.push(constraint);
        let satisfied = satisfied && holds;
        proof {
            let next = Circuit { constants, public, private, constraints, satisfied, scopes };
            assert(next@ =~= old(self)@.enforce(constraint@));
            lemma_enforce(old(self)@, constraint@);
        }
        *self = Circuit { constants, public, private, constraints, satisfied, scopes };
    }

    /// Asserts that a boolean indicator is true, by the constraint
    /// `1 * b = 1`. An indicator that is false leaves the system
    /// unsatisfied.
    pub fn assert_true(&mut self, boolean: &Boolean)
        ensures
            final(self)@ == old(self)@.enforce(Relation { a: 1, b: bit(boolean@.value), c: 1 }),
    {
        self.enforce(
            FieldValue::one(),
            Boolean::to_field(boolean.eject_value()),
            FieldValue::one(),
        );
    }

    /// Raises a fatal error with the given diagnostic. The system is left
    /// as it is; the run that halts must not go on with it.
    pub fn halt(message: &str) -> (r: Halt)
        ensures
            r@ == message@,
    {
        crate::halt::halt(message)
    }

    /// Whether every registered constraint holds.
    pub fn is_satisfied(&self) -> (r: bool)
        ensures
            r == self@.is_satisfied(),
    {
        proof {
            use_type_invariant(self);
        }
        self.satisfied
    }

    /// The number of constants allocated so far.
    pub fn num_constants(&self) -> (r: usize)
        ensures
            r == self@.tally().constants,
    {
        self.constants.len()
    }

    /// The number of public variables allocated so far.
    pub fn num_public(&self) -> (r: usize)
        ensures
            r == self@.tally().public,
    {
        self.public.len()
    }

    /// The number of private variables allocated so far.
    pub fn num_private(&self) -> (r: usize)
        ensures
            r == self@.tally().private,
    {
        self.private.len()
    }

    /// The number of constraints registered so far.
    pub fn num_constraints(&self) -> (r: usize)
        ensures
            r == self@.tally().constraints,
    {
        self.constraints.len()
    }

    /// Enters a scope of the given name: what is allocated and enforced
    /// from here on counts as in scope, until the scope is left.
    pub fn enter_scope(&mut self, name: &str)
        ensures
            final(self)@ == old(self)@.enter_scope(name@),
    {
        let Circuit { constants, public, private, constraints, satisfied, mut scopes } =
            self.take();
        let scope = Scope {
            name: name.to_owned(),
            constants: constants.len(),
            public: public.len(),
            private: private.len(),
            constraints: constraints.len(),
        };
        scopes.push(scope);
        proof {
            let next = Circuit { constants, public, private, constraints, satisfied, scopes };
            assert(next@.scopes =~= old(self)@.scopes.push(scope@));
            assert(forall|i: int|
                0 <= i < old(self)@.scopes.len() ==> next@.scopes[i] == old(self)@.scopes[i]);
            assert(next@.constraints == old(self)@.constraints);
        }
        *self = Circuit { constants, public, private, constraints, satisfied, scopes };
    }

    /// Leaves the innermost open scope and hands back its name; without an
    /// open scope, nothing happens.
    pub fn exit_scope(&mut self) -> (r: Option<String>)
        ensures
            old(self)@.scopes.len() == 0 ==> r is None && final(self)@ == old(self)@,
            old(self)@.scopes.len() > 0 ==> r is Some && r.unwrap()@ == old(
                self,
            )@.scopes.last().name && final(self)@ == old(self)@.exit_scope(),
    {
        let Circuit { constants, public, private, constraints, satisfied, mut scopes } =
            self.take();
        let left = scopes.pop();
        proof {
            let next = Circuit { constants, public, private, constraints, satisfied, scopes };
            if left is Some {
                assert(next@.scopes =~= old(self)@.scopes.drop_last());
            } else {
                assert(next@.scopes =~= old(self)@.scopes);
            }
            assert(forall|i: int|
                0 <= i < next@.scopes.len() ==> next@.scopes[i] == old(self)@.scopes[i]);
            assert(next@.constraints == old(self)@.constraints);
        }
        *self = Circuit { constants, public, private, constraints, satisfied, scopes };
        match left {
            Some(scope) => Some(scope.name),
            None => None,
        }
    }

    /// The number of constants allocated in the innermost open scope.
    pub fn num_constants_in_scope(&self) -> (r: usize)
        ensures
            r == self@.tally_in_scope().constants,
    {
        proof {
            use_type_invariant(self);
        }
        let n = self.scopes.len();
        if n == 0 {
            self.constants.len()
        } else {
            assert(self@.scopes[n - 1] == self.scopes[n - 1]@);
            self.constants.len() - self.scopes[n - 1].constants
        }
    }

    /// The number of public variables allocated in the innermost open scope.
    pub fn num_public_in_scope(&self) -> (r: usize)
        ensures
            r == self@.tally_in_scope().public,
    {
        proof {
            use_type_invariant(self);
        }
        let n = self.scopes.len();
        if n == 0 {
            self.public.len()
        } else {
            assert(self@.scopes[n - 1] == self.scopes[n - 1]@);
            self.public.len() - self.scopes[n - 1].public
        }
    }

    /// The number of private variables allocated in the innermost open
    /// scope.
    pub fn num_private_in_scope(&self) -> (r: usize)
        ensures
            r == self@.tally_in_scope().private,
    {
        proof {
            use_type_invariant(self);
        }
        let n = self.scopes.len();
        if n == 0 {
            self.private.len()
        } else {
            assert(self@.scopes[n - 1] == self.scopes[n - 1]@);
            self.private.len() - self.scopes[n - 1].private
        }
    }

    /// The number of constraints registered in the innermost open scope.
    pub fn num_constraints_in_scope(&self) -> (r: usize)
        ensures
            r == self@.tally_in_scope().constraints,
    {
        proof {
            use_type_invariant(self);
        }
        let n = self.scopes.len();
        if n == 0 {
            self.constraints.len()
        } else {
            assert(self@.scopes[n - 1] == self.scopes[n - 1]@);
            self.constraints.len() - self.scopes[n - 1].constraints
        }
    }

    /// Whether every constraint registered in the innermost open scope
    /// holds.
    pub fn is_satisfied_in_scope(&self) -> (r: bool)
        ensures
            r == self@.is_satisfied_in_scope(),
    {
        proof {
            use_type_invariant(self);
        }
        let n = self.scopes.len();
        let start = if n == 0 {
            0
        } else {
            assert(self@.scopes[n - 1] == self.scopes[n - 1]@);
            self.scopes[n - 1].constraints
        };
        let mut i: usize = start;
        while i < self.constraints.len()
            invariant
                start <= i <= self.constraints.len(),
                start == self@.scope_start().constraints,
                forall|j: int| start <= j < i ==> (#[trigger] self@.constraints[j]).holds(),
            decreases self.constraints.len() - i,
        {
            assert(self@.constraints[i as int] == self.constraints[i as int]@);
            if !self.constraints[i].is_satisfied() {
                return false;
            }
            i += 1;
        }
        true
    }
}

} // verus!
