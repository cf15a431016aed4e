//! Division of field elements in a circuit, and its cost model.
//!
//! Dividing by a constant is done natively: the constant is inverted and the
//! dividend is scaled by the inverse, which costs one constant. Dividing by
//! a variable witnesses the quotient and binds it by `quotient * divisor =
//! dividend`, after asserting that the divisor is not zero. A zero that is
//! known while the circuit is built halts the synthesis; a zero that is only
//! known as a witness leaves the circuit unsatisfied.

use crate::boolean::bit;
use crate::circuit::{lemma_allocate, lemma_enforce, Circuit, CircuitState, Relation, Tally};
use crate::count::Count;
use crate::field::{lemma_is_zero_sound, CircuitType, Field, FieldState};
use crate::halt::Halt;
use crate::mode::Mode;
use crate::native::{
    field_div,
    field_inv,
    field_mul,
    has_inverse,
    is_inverse,
    lemma_div_by_one,
    lemma_div_mul_cancel,
    lemma_inverse_nonzero,
    modulus,
};
use vstd::arithmetic::div_mod::lemma_small_mod;
use vstd::prelude::*;

verus! {

impl Field {
    /// Whether a division by the given divisor halts: it does where the
    /// divisor is a constant zero.
    pub open spec fn spec_div_halts(divisor: FieldState) -> bool {
        divisor.mode is Constant && divisor.value == 0
    }

    /// The value of a quotient: the exact quotient in the field where the
    /// divisor is not zero, and the dividend itself where it is.
    pub open spec fn spec_div_value(dividend: nat, divisor: nat) -> nat {
        if divisor == 0 {
            dividend
        } else {
            field_div(dividend, divisor)
        }
    }

    /// The mode of the product of an element with a constant factor other
    /// than zero: a constant stays a constant, a public element stays
    /// public only under the factor one, anything else is private.
    pub open spec fn spec_scale_mode(mode: Mode, factor: nat) -> Mode {
        match mode {
            Mode::Constant => Mode::Constant,
            Mode::Public => if factor == 1 {
                Mode::Public
            } else {
                Mode::Private
            },
            Mode::Private => Mode::Private,
        }
    }

    /// The mode that a quotient is predicted to have, from the types of
    /// dividend and divisor.
    pub open spec fn spec_output_mode(case: (CircuitType, CircuitType)) -> Mode {
        match (case.0.spec_mode(), case.1) {
            (Mode::Constant, CircuitType::Constant(_)) => Mode::Constant,
            (Mode::Public, CircuitType::Constant(constant)) => if constant@.value == 1 {
                Mode::Public
            } else {
                Mode::Private
            },
            _ => Mode::Private,
        }
    }

    /// The resources that a division is predicted to consume, from the
    /// modes of dividend and divisor.
    pub open spec fn spec_count(case: (Mode, Mode)) -> Count {
        if case.0 is Constant || case.1 is Constant {
            Count { num_constants: 1, num_public: 0, num_private: 0, num_constraints: 0 }
        } else {
            Count { num_constants: 0, num_public: 0, num_private: 3, num_constraints: 5 }
        }
    }

    /// The resources that a division consumes, which depend on the mode of
    /// the divisor alone.
    pub open spec fn spec_div_cost(divisor: Mode) -> Tally {
        if divisor is Constant {
            Tally { constants: 1, public: 0, private: 0, constraints: 0 }
        } else {
            Tally { constants: 0, public: 0, private: 3, constraints: 5 }
        }
    }

    /// The constraint system after a division that does not halt.
    ///
    /// A constant divisor adds its inverse as a constant. Any other divisor
    /// adds the indicator of its being zero, the assertion that the
    /// indicator is false, the quotient as a private witness, and the
    /// constraint `quotient * divisor = dividend`.
    pub open spec fn spec_div(state: CircuitState, dividend: FieldState, divisor: FieldState)
        -> CircuitState {
        if divisor.mode is Constant {
            state.allocate(Mode::Constant, field_inv(divisor.value))
        } else {
            let quotient = Self::spec_div_value(dividend.value, divisor.value);
            Self::spec_is_zero(state, divisor).enforce(
                Relation { a: 1, b: bit(divisor.value != 0), c: 1 },
            ).allocate(Mode::Private, quotient).enforce(
                Relation { a: quotient, b: divisor.value, c: dividend.value },
            )
        }
    }

    /// The quotient of two elements, as a new element.
    ///
    /// Halts where the divisor is a constant zero, and only there; the
    /// circuit is then left untouched. Otherwise the quotient has the
    /// predicted mode and the exact value, the circuit has grown by what
    /// the division of these operands registers, and it is satisfied
    /// exactly if it was before and the divisor is not zero.
    pub fn div(&self, other: &Field, env: &mut Circuit) -> (r: Result<Field, Halt>)
        ensures
            r is Err <==> Self::spec_div_halts(other@),
            r matches Err(halt) ==> halt@ == "Attempted to divide by zero."@ && final(env)@ == old(
                env,
            )@,
            r matches Ok(quotient) ==> {
                &&& quotient@.mode == Self::spec_output_mode(
                    (CircuitType::spec_from(*self), CircuitType::spec_from(*other)),
                )
                &&& quotient@.value == Self::spec_div_value(self@.value, other@.value)
                &&& other@.value != 0 ==> field_mul(quotient@.value, other@.value) == self@.value
                &&& other@.value == 1 ==> quotient@.value == self@.value
                &&& final(env)@ == Self::spec_div(old(env)@, self@, other@)
                &&& final(env)@.tally() == old(env)@.tally().plus(
                    Self::spec_div_cost(other@.mode),
                )
                &&& final(env)@.is_satisfied() == (old(env)@.is_satisfied() && other@.value != 0)
                &&& other@.value == 0 ==> !final(env)@.is_satisfied_in_scope()
            },
    {
        let mut output = *self;
        match output.div_assign(other, env) {
            Ok(()) => Ok(output),
            Err(halt) => Err(halt),
        }
    }

    /// Replaces the element by its quotient by another.
    ///
    /// Halts where the divisor is a constant zero, and only there; the
    /// element and the circuit are then left untouched. Otherwise the
    /// element has become the quotient, with the predicted mode and the
    /// exact value, the circuit has grown by what the division of these
    /// operands registers, and it is satisfied exactly if it was before and
    /// the divisor is not zero.
    pub fn div_assign(&mut self, other: &Field, env: &mut Circuit) -> (r: Result<(), Halt>)
        ensures
            r is Err <==> Self::spec_div_halts(other@),
            r matches Err(halt) ==> halt@ == "Attempted to divide by zero."@ && *final(self)
                == *old(self) && final(env)@ == old(env)@,
            r is Ok ==> {
                &&& final(self)@.mode == Self::spec_output_mode(
                    (CircuitType::spec_from(*old(self)), CircuitType::spec_from(*other)),
                )
                &&& final(self)@.value == Self::spec_div_value(old(self)@.value, other@.value)
                &&& other@.value != 0 ==> field_mul(final(self)@.value, other@.value) == old(
                    self,
                )@.value
                &&& other@.value == 1 ==> final(self)@.value == old(self)@.value
                &&& final(env)@ == Self::spec_div(old(env)@, old(self)@, other@)
                &&& final(env)@.tally() == old(env)@.tally().plus(
                    Self::spec_div_cost(other@.mode),
                )
                &&& final(env)@.is_satisfied() == (old(env)@.is_satisfied() && other@.value != 0)
                &&& other@.value == 0 ==> !final(env)@.is_satisfied_in_scope()
            },
    {
        proof {
            use_type_invariant(&self.value);
            use_type_invariant(&other.value);
            use_type_invariant(&*env);
            self.lemma_view();
            other.lemma_view();
        }
        if other.is_constant() {
            if other.eject_value().is_zero() {
                // The inverse of zero is undefined, and the zero is known.
                return Err(Circuit::halt("Attempted to divide by zero."));
            }
            // A constant divisor costs neither variables nor constraints.
            let inverse = other.invert_constant(env);
            proof {
                lemma_div_by_constant(old(env)@, *self, *other);
                lemma_div_tally(old(env)@, self@, other@);
                lemma_inverse_nonzero(other@.value, inverse@.value);
            }
            *self = self.scale(&inverse);
            proof {
                self.lemma_view();
            }
        } else {
            // Enforce that `other` is not zero.
            let is_zero = other.is_zero(env);
            env.assert_true(&is_zero.not());
            // Witness the quotient. Where the divisor is zero the dividend
            // stands in, so that zero is never inverted; the assertion above
            // is what rejects such a witness.
            let quotient = match self.value.div(&other.value) {
                Some(quotient) => quotient,
                None => self.value,
            };
            let mode = Field::witness_mode(self.mode, other.mode);
            let quotient = Field::new(mode, quotient, env);
            proof {
                quotient.lemma_view();
            }
            // Ensure the quotient is correct by enforcing:
            // `quotient * other == self`.
            env.enforce(quotient.value, other.value, self.value);
            proof {
                lemma_div_by_variable(old(env)@, *self, *other);
                lemma_div_tally(old(env)@, self@, other@);
                if other@.value == 1 {
                    lemma_div_by_one(self@.value);
                }
            }
            *self = quotient;
        }
        Ok(())
    }

    /// The inverse of a constant other than zero, as a new constant.
    fn invert_constant(&self, env: &mut Circuit) -> (r: Field)
        requires
            self@.mode is Constant,
            self@.value != 0,
        ensures
            r@ == (FieldState { mode: Mode::Constant, value: field_inv(self@.value) }),
            is_inverse(self@.value, r@.value),
            final(env)@ == old(env)@.allocate(Mode::Constant, field_inv(self@.value)),
    {
        proof {
            self.lemma_view();
        }
        Field::new(Mode::Constant, self.value.inverse().unwrap(), env)
    }

    /// The product of the element with a constant factor other than zero.
    /// It is a linear expression in the element, and costs nothing.
    fn scale(&self, factor: &Field) -> (r: Field)
        requires
            factor@.mode is Constant,
            factor@.value != 0,
        ensures
            r@ == (FieldState {
                mode: Self::spec_scale_mode(self@.mode, factor@.value),
                value: field_mul(self@.value, factor@.value),
            }),
    {
        proof {
            self.lemma_view();
            factor.lemma_view();
        }
        let mode = match self.mode {
            Mode::Constant => Mode::Constant,
            Mode::Public => if factor.value.is_one() {
                Mode::Public
            } else {
                Mode::Private
            },
            Mode::Private => Mode::Private,
        };
        let product = Field { mode, value: self.value.mul(&factor.value) };
        proof {
            product.lemma_view();
        }
        product
    }

    /// Predicts the resources that a division consumes, from the modes of
    /// dividend and divisor: one constant where either is a constant, three
    /// private variables and five constraints otherwise.
    pub fn count(case: &(Mode, Mode)) -> (r: Count)
        ensures
            r == Self::spec_count(*case),
    {
        match case {
            (Mode::Constant, _) | (_, Mode::Constant) => Count::is(1, 0, 0, 0),
            (_, _) => Count::is(0, 0, 3, 5),
        }
    }

    /// Predicts the mode of a quotient, from the types of dividend and
    /// divisor: a constant for two constants, public for a public dividend
    /// and the constant divisor one, private otherwise.
    pub fn output_mode(case: &(CircuitType, CircuitType)) -> (r: Mode)
        ensures
            r == Self::spec_output_mode(*case),
    {
        match (case.0.mode(), &case.1) {
            (Mode::Constant, CircuitType::Constant(_)) => Mode::Constant,
            (Mode::Public, CircuitType::Constant(constant)) => {
                if constant.eject_value().is_one() {
                    Mode::Public
                } else {
                    Mode::Private
                }
            },
            (_, _) => Mode::Private,
        }
    }
}

/// The tally that a predicted count stands for.
pub open spec fn count_as_tally(count: Count) -> Tally {
    Tally {
        constants: count.num_constants as nat,
        public: count.num_public as nat,
        private: count.num_private as nat,
        constraints: count.num_constraints as nat,
    }
}

/// An element has the inverse one only if it is one itself.
pub proof fn lemma_inverse_one(a: nat, r: nat)
    requires
        a < modulus(),
        is_inverse(a, r),
    ensures
        r == 1 <==> a == 1,
{
    if r == 1 {
        assert(a * 1 == a);
        lemma_small_mod(a, modulus());
    }
    if a == 1 {
        assert(1 * r == r);
        lemma_small_mod(r, modulus());
    }
}

/// Division by a constant that has an inverse: the quotient is exact and
/// has the predicted mode, and satisfaction is kept.
pub proof fn lemma_div_by_constant(state: CircuitState, dividend: Field, divisor: Field)
    requires
        dividend@.value < modulus(),
        divisor@.value < modulus(),
        divisor@.mode is Constant,
        has_inverse(divisor@.value),
    ensures
        Field::spec_scale_mode(dividend@.mode, field_inv(divisor@.value))
            == Field::spec_output_mode(
            (CircuitType::spec_from(dividend), CircuitType::spec_from(divisor)),
        ),
        field_mul(field_div(dividend@.value, divisor@.value), divisor@.value)
            == dividend@.value,
        divisor@.value == 1 ==> field_div(dividend@.value, divisor@.value) == dividend@.value,
        Field::spec_div(state, dividend@, divisor@).is_satisfied() == state.is_satisfied(),
        Field::spec_div(state, dividend@, divisor@).is_satisfied_in_scope()
            == state.is_satisfied_in_scope(),
{
    lemma_inverse_one(divisor@.value, field_inv(divisor@.value));
    lemma_div_mul_cancel(dividend@.value, divisor@.value);
    if divisor@.value == 1 {
        lemma_div_by_one(dividend@.value);
    }
    lemma_allocate(state, Mode::Constant, field_inv(divisor@.value));
}

/// Division by a variable: the quotient has the predicted mode, which is
/// private; where the divisor has an inverse the quotient is exact and
/// satisfaction is kept, and where the divisor is zero the circuit is left
/// unsatisfied, also within the innermost scope.
pub proof fn lemma_div_by_variable(state: CircuitState, dividend: Field, divisor: Field)
    requires
        dividend@.value < modulus(),
        divisor@.value < modulus(),
        !(divisor@.mode is Constant),
        divisor@.value == 0 || has_inverse(divisor@.value),
    ensures
        Field::spec_witness_mode(dividend@.mode, divisor@.mode) == Field::spec_output_mode(
            (CircuitType::spec_from(dividend), CircuitType::spec_from(divisor)),
        ),
        divisor@.value != 0 ==> field_mul(
            Field::spec_div_value(dividend@.value, divisor@.value),
            divisor@.value,
        ) == dividend@.value,
        Field::spec_div(state, dividend@, divisor@).is_satisfied() == (state.is_satisfied()
            && divisor@.value != 0),
        state.scopes_are_behind() ==> Field::spec_div(
            state,
            dividend@,
            divisor@,
        ).is_satisfied_in_scope() == (state.is_satisfied_in_scope() && divisor@.value != 0),
{
    let nonzero = divisor@.value != 0;
    let quotient = Field::spec_div_value(dividend@.value, divisor@.value);
    let assertion = Relation { a: 1, b: bit(nonzero), c: 1 };
    let binding = Relation { a: quotient, b: divisor@.value, c: dividend@.value };
    let s1 = Field::spec_is_zero(state, divisor@);
    let s2 = s1.enforce(assertion);
    let s3 = s2.allocate(Mode::Private, quotient);
    lemma_is_zero_sound(state, divisor@);
    lemma_enforce(s1, assertion);
    lemma_allocate(s2, Mode::Private, quotient);
    lemma_enforce(s3, binding);
    lemma_small_mod(0, modulus());
    lemma_small_mod(1, modulus());
    assert(assertion.holds() == nonzero) by {
        assert(1nat * 1nat == 1 && 1nat * 0nat == 0);
    }
    if nonzero {
        lemma_div_mul_cancel(dividend@.value, divisor@.value);
    }
}

/// Dividing by the constant one gives the dividend back, in mode and in
/// value.
pub proof fn lemma_div_by_constant_one(dividend: Field, divisor: Field)
    requires
        dividend@.value < modulus(),
        divisor@.mode is Constant,
        divisor@.value == 1,
    ensures
        Field::spec_output_mode((CircuitType::spec_from(dividend), CircuitType::spec_from(divisor)))
            == dividend@.mode,
        Field::spec_div_value(dividend@.value, divisor@.value) == dividend@.value,
{
    lemma_div_by_one(dividend@.value);
}

/// The predicted count of a division is what the division consumes, for
/// every pair of modes but that of a constant dividend with a variable
/// divisor.
pub proof fn lemma_count_conforms(state: CircuitState, dividend: FieldState, divisor: FieldState)
    requires
        !(dividend.mode is Constant && !(divisor.mode is Constant)),
    ensures
        Field::spec_div(state, dividend, divisor).tally() == state.tally().plus(
            count_as_tally(Field::spec_count((dividend.mode, divisor.mode))),
        ),
{
    lemma_div_tally(state, dividend, divisor);
}

/// A division consumes what the mode of its divisor says, whatever the
/// values are.
pub proof fn lemma_div_tally(state: CircuitState, dividend: FieldState, divisor: FieldState)
    ensures
        Field::spec_div(state, dividend, divisor).tally() == state.tally().plus(
            Field::spec_div_cost(divisor.mode),
        ),
{
}

} // verus!
