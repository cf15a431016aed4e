//! Field elements in a circuit.

use crate::boolean::{bit, Boolean, BooleanState};
use crate::circuit::{lemma_allocate, lemma_enforce, Circuit, CircuitState, Relation, Tally};
use crate::mode::Mode;
use crate::native::{field_inv, has_inverse, modulus, FieldValue};
use vstd::arithmetic::div_mod::lemma_small_mod;
use vstd::prelude::*;

verus! {

/// The mathematical content of a field element in a circuit: its mode and
/// the canonical integer of its value.
pub struct FieldState {
    pub mode: Mode,
    pub value: nat,
}

/// A field element in a circuit: a native value together with the mode under
/// which it is known. An element is never changed in place by an operator
/// other than the assigning forms, which replace it whole.
#[derive(Clone, Copy, Debug)]
pub struct Field {
    pub(crate) mode: Mode,
    pub(crate) value: FieldValue,
}

impl View for Field {
    type V = FieldState;

    closed spec fn view(&self) -> FieldState {
        FieldState { mode: self.mode, value: self.value@ }
    }
}

impl Field {
    /// The content of an element is its mode and the integer of its value.
    pub(crate) proof fn lemma_view(self)
        ensures
            self@ == (FieldState { mode: self.mode, value: self.value@ }),
    {
    }

    /// Introduces a field element of the given mode into the circuit, which
    /// allocates a constant or a variable for it.
    pub fn new(mode: Mode, value: FieldValue, env: &mut Circuit) -> (r: Field)
        ensures
            r@ == (FieldState { mode, value: value@ }),
            final(env)@ == old(env)@.allocate(mode, value@),
    {
        env.new_variable(mode, value);
        Field { mode, value }
    }

    /// The constant zero. It needs no allocation.
    pub fn zero() -> (r: Field)
        ensures
            r@ == (FieldState { mode: Mode::Constant, value: 0 }),
    {
        Field { mode: Mode::Constant, value: FieldValue::zero() }
    }

    /// The constant one. It needs no allocation.
    pub fn one() -> (r: Field)
        ensures
            r@ == (FieldState { mode: Mode::Constant, value: 1 }),
    {
        Field { mode: Mode::Constant, value: FieldValue::one() }
    }

    /// The mode under which the element is known.
    pub fn eject_mode(&self) -> (r: Mode)
        ensures
            r == self@.mode,
    {
        self.mode
    }

    /// The native value of the element.
    pub fn eject_value(&self) -> (r: FieldValue)
        ensures
            r@ == self@.value,
            r@ < modulus(),
    {
        proof {
            use_type_invariant(&self.value);
        }
        self.value
    }

    /// Whether the element is a constant.
    pub fn is_constant(&self) -> (r: bool)
        ensures
            r == (self@.mode is Constant),
    {
        self.mode.is_constant()
    }

    /// The mode of a value that is witnessed from two operands: a constant
    /// where both are constants, private otherwise.
    pub open spec fn spec_witness_mode(first: Mode, second: Mode) -> Mode {
        if first is Constant && second is Constant {
            Mode::Constant
        } else {
            Mode::Private
        }
    }

    /// The mode of a value that is witnessed from two operands.
    pub fn witness_mode(first: Mode, second: Mode) -> (r: Mode)
        ensures
            r == Self::spec_witness_mode(first, second),
    {
        if first.is_constant() && second.is_constant() {
            Mode::Constant
        } else {
            Mode::Private
        }
    }

    /// The constraint system after the indicator of `x == 0` was derived.
    ///
    /// For a constant, the indicator is a constant too. Otherwise two
    /// private variables are witnessed, the indicator `n` of `x != 0` and a
    /// multiplier `m`, the inverse of `x` where it has one, and they are
    /// bound by `x * m = n` and `x * (1 - n) = 0`.
    pub open spec fn spec_is_zero(state: CircuitState, x: FieldState) -> CircuitState {
        if x.mode is Constant {
            Boolean::spec_new(state, Mode::Constant, x.value == 0)
        } else {
            let nonzero = x.value != 0;
            let multiplier = if nonzero {
                field_inv(x.value)
            } else {
                1
            };
            Boolean::spec_new(state, Mode::Private, nonzero).allocate(
                Mode::Private,
                multiplier,
            ).enforce(Relation { a: x.value, b: multiplier, c: bit(nonzero) }).enforce(
                Relation { a: x.value, b: bit(!nonzero), c: 0 },
            )
        }
    }

    /// What deriving the indicator of `x == 0` costs: one constant for a
    /// constant, two private variables and three constraints otherwise.
    pub open spec fn spec_is_zero_cost(mode: Mode) -> Tally {
        if mode is Constant {
            Tally { constants: 1, public: 0, private: 0, constraints: 0 }
        } else {
            Tally { constants: 0, public: 0, private: 2, constraints: 3 }
        }
    }

    /// Derives the boolean indicator of whether the element is zero. The
    /// constraints that bind the indicator hold whatever the element is.
    pub fn is_zero(&self, env: &mut Circuit) -> (r: Boolean)
        ensures
            r@ == (BooleanState {
                mode: if self@.mode is Constant {
                    Mode::Constant
                } else {
                    Mode::Private
                },
                value: self@.value == 0,
            }),
            final(env)@ == Self::spec_is_zero(old(env)@, self@),
            final(env)@.is_satisfied() == old(env)@.is_satisfied(),
    {
        proof {
            use_type_invariant(&self.value);
        }
        if self.mode.is_constant() {
            proof {
                lemma_is_zero_sound(old(env)@, self@);
            }
            Boolean::new(Mode::Constant, self.value.is_zero(), env)
        } else {
            let nonzero = !self.value.is_zero();
            let is_nonzero = Boolean::new(Mode::Private, nonzero, env);
            let multiplier = match self.value.inverse() {
                Some(inverse) => inverse,
                None => FieldValue::one(),
            };
            let multiplier = Field::new(Mode::Private, multiplier, env);
            env.enforce(self.value, multiplier.value, Boolean::to_field(nonzero));
            env.enforce(self.value, Boolean::to_field(!nonzero), FieldValue::zero());
            proof {
                lemma_is_zero_sound(old(env)@, self@);
            }
            is_nonzero.not()
        }
    }
}

/// Deriving the indicator of `x == 0` costs one constant for a constant, and
/// two private variables and three constraints otherwise; the constraints
/// hold for zero and for every element that has an inverse, so that
/// satisfaction is kept.
pub proof fn lemma_is_zero_sound(state: CircuitState, x: FieldState)
    requires
        x.value < modulus(),
        x.mode is Constant || x.value == 0 || has_inverse(x.value),
    ensures
        Field::spec_is_zero(state, x).tally() == state.tally().plus(
            Field::spec_is_zero_cost(x.mode),
        ),
        Field::spec_is_zero(state, x).is_satisfied() == state.is_satisfied(),
        state.scopes_are_behind() ==> Field::spec_is_zero(state, x).scopes_are_behind(),
        state.scopes_are_behind() ==> Field::spec_is_zero(state, x).is_satisfied_in_scope()
            == state.is_satisfied_in_scope(),
{
    if x.mode is Constant {
        lemma_allocate(state, Mode::Constant, bit(x.value == 0));
    } else {
        let nonzero = x.value != 0;
        let multiplier = if nonzero {
            field_inv(x.value)
        } else {
            1
        };
        let booleanity = Relation { a: bit(!nonzero), b: bit(nonzero), c: 0 };
        let product = Relation { a: x.value, b: multiplier, c: bit(nonzero) };
        let vanishing = Relation { a: x.value, b: bit(!nonzero), c: 0 };
        let s1 = state.allocate(Mode::Private, bit(nonzero));
        let s2 = s1.enforce(booleanity);
        let s3 = s2.allocate(Mode::Private, multiplier);
        let s4 = s3.enforce(product);
        lemma_allocate(state, Mode::Private, bit(nonzero));
        lemma_enforce(s1, booleanity);
        lemma_allocate(s2, Mode::Private, multiplier);
        lemma_enforce(s3, product);
        lemma_enforce(s4, vanishing);
        lemma_small_mod(0, modulus());
        assert(booleanity.holds()) by {
            assert(0nat * 1nat == 0 && 1nat * 0nat == 0);
        }
        assert(product.holds()) by {
            assert(0nat * 1nat == 0);
        }
        assert(vanishing.holds()) by {
            assert(x.value * 0 == 0);
            assert(0nat * 1nat == 0);
        }
    }
}

/// The type of an operand as the cost model sees it: its mode, and for a
/// constant also the element itself, whose value the model may inspect.
#[derive(Clone, Copy, Debug)]
pub enum CircuitType {
    Constant(Field),
    Public,
    Private,
}

impl CircuitType {
    /// The mode of the operand.
    pub open spec fn spec_mode(self) -> Mode {
        match self {
            CircuitType::Constant(_) => Mode::Constant,
            CircuitType::Public => Mode::Public,
            CircuitType::Private => Mode::Private,
        }
    }

    /// The type of a given element.
    pub open spec fn spec_from(circuit: Field) -> CircuitType {
        match circuit@.mode {
            Mode::Constant => CircuitType::Constant(circuit),
            Mode::Public => CircuitType::Public,
            Mode::Private => CircuitType::Private,
        }
    }

    /// The type of a given element.
    pub fn from(circuit: &Field) -> (r: CircuitType)
        ensures
            r == Self::spec_from(*circuit),
    {
        match circuit.eject_mode() {
            Mode::Constant => CircuitType::Constant(*circuit),
            Mode::Public => CircuitType::Public,
            Mode::Private => CircuitType::Private,
        }
    }

    /// The mode of the operand.
    pub fn mode(&self) -> (r: Mode)
        ensures
            r == self.spec_mode(),
    {
        match self {
            CircuitType::Constant(_) => Mode::Constant,
            CircuitType::Public => Mode::Public,
            CircuitType::Private => Mode::Private,
        }
    }

    /// Whether the operand is a constant.
    pub fn is_constant(&self) -> (r: bool)
        ensures
            r == (self.spec_mode() is Constant),
    {
        self.mode().is_constant()
    }
}

} // verus!
