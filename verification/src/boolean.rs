//! Boolean indicators in a circuit.

use crate::circuit::{Circuit, CircuitState, Relation};
use crate::mode::Mode;
use crate::native::FieldValue;
use vstd::prelude::*;

verus! {

/// The field element that stands for a truth value: one for true, zero for
/// false.
pub open spec fn bit(value: bool) -> nat {
    if value {
        1
    } else {
        0
    }
}

/// The mathematical content of a boolean indicator.
pub struct BooleanState {
    pub mode: Mode,
    pub value: bool,
}

/// A truth value in a circuit, with the mode under which it is known.
#[derive(Clone, Copy, Debug)]
pub struct Boolean {
    mode: Mode,
    value: bool,
}

impl View for Boolean {
    type V = BooleanState;

    closed spec fn view(&self) -> BooleanState {
        BooleanState { mode: self.mode, value: self.value }
    }
}

impl Boolean {
    /// The constraint system after a boolean of the given mode was
    /// introduced: one allocation and, unless it is a constant, the
    /// constraint `(1 - b) * b = 0` that keeps the variable to zero or one.
    pub open spec fn spec_new(state: CircuitState, mode: Mode, value: bool) -> CircuitState {
        let allocated = state.allocate(mode, bit(value));
        if mode is Constant {
            allocated
        } else {
            allocated.enforce(Relation { a: bit(!value), b: bit(value), c: 0 })
        }
    }

    /// Introduces a boolean of the given mode into the circuit.
    pub fn new(mode: Mode, value: bool, env: &mut Circuit) -> (r: Boolean)
        ensures
            r@ == (BooleanState { mode, value }),
            final(env)@ == Self::spec_new(old(env)@, mode, value),
    {
        env.new_variable(mode, Self::to_field(value));
        if !mode.is_constant() {
            env.enforce(Self::to_field(!value), Self::to_field(value), FieldValue::zero());
        }
        Boolean { mode, value }
    }

    /// The field element that stands for a truth value.
    pub fn to_field(value: bool) -> (r: FieldValue)
        ensures
            r@ == bit(value),
    {
        if value {
            FieldValue::one()
        } else {
            FieldValue::zero()
        }
    }

    /// The mode under which the boolean is known.
    pub fn eject_mode(&self) -> (r: Mode)
        ensures
            r == self@.mode,
    {
        self.mode
    }

    /// The truth value.
    pub fn eject_value(&self) -> (r: bool)
        ensures
            r == self@.value,
    {
        self.value
    }

    /// Whether the boolean is a constant.
    pub fn is_constant(&self) -> (r: bool)
        ensures
            r == (self@.mode is Constant),
    {
        self.mode.is_constant()
    }

    /// The mode of a negation: a constant stays a constant, anything else
    /// becomes private.
    pub open spec fn spec_not_mode(mode: Mode) -> Mode {
        if mode is Constant {
            Mode::Constant
        } else {
            Mode::Private
        }
    }

    /// The negation. It is the linear expression `1 - b`, and costs nothing
    /// in the constraint system.
    pub fn not(&self) -> (r: Boolean)
        ensures
            r@ == (BooleanState { mode: Self::spec_not_mode(self@.mode), value: !self@.value }),
    {
        let mode = if self.mode.is_constant() {
            Mode::Constant
        } else {
            Mode::Private
        };
        Boolean { mode, value: !self.value }
    }
}

} // verus!
