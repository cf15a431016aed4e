use circuit_field::{Circuit, CircuitType, Count, Field, FieldValue, Mode};

const MODES: [Mode; 3] = [Mode::Constant, Mode::Public, Mode::Private];

const X: [u64; 4] =
    [2464388554683811993, 12302652060662169617, 18364758544493064720, 1311768467463790320];

const Y: [u64; 4] =
    [9843086184167632639, 4822678189205111, 1234907033823333871, 71737338064426034];

const X_BY_Y: [u64; 4] =
    [8017772762491997680, 9202621577184589413, 669515457256946010, 486723892169217756];

fn value(limbs: [u64; 4]) -> FieldValue {
    FieldValue::from_limbs(limbs).unwrap()
}

/// What the circuit holds in its innermost scope.
fn measured(env: &Circuit) -> (usize, usize, usize, usize) {
    (
        env.num_constants_in_scope(),
        env.num_public_in_scope(),
        env.num_private_in_scope(),
        env.num_constraints_in_scope(),
    )
}

#[test]
fn test_constant_six_by_constant_three() {
    let mut env = Circuit::new();
    let a = Field::new(Mode::Constant, FieldValue::from_u64(6), &mut env);
    let b = Field::new(Mode::Constant, FieldValue::from_u64(3), &mut env);
    env.enter_scope("Constant / Constant");
    let quotient = a.div(&b, &mut env).unwrap();
    assert_eq!(quotient.eject_value(), FieldValue::from_u64(2));
    assert_eq!(quotient.eject_mode(), Mode::Constant);
    assert_eq!(env.num_constraints_in_scope(), 0);
    assert_eq!(measured(&env), (1, 0, 0, 0));
    assert!(env.is_satisfied());
}

#[test]
fn test_public_six_by_constant_one() {
    let mut env = Circuit::new();
    let a = Field::new(Mode::Public, FieldValue::from_u64(6), &mut env);
    let b = Field::new(Mode::Constant, FieldValue::from_u64(1), &mut env);
    let quotient = a.div(&b, &mut env).unwrap();
    assert_eq!(quotient.eject_value(), FieldValue::from_u64(6));
    assert_eq!(quotient.eject_mode(), Mode::Public);
}

#[test]
fn test_public_six_by_constant_three() {
    let mut env = Circuit::new();
    let a = Field::new(Mode::Public, FieldValue::from_u64(6), &mut env);
    let b = Field::new(Mode::Constant, FieldValue::from_u64(3), &mut env);
    let quotient = a.div(&b, &mut env).unwrap();
    assert_eq!(quotient.eject_value(), FieldValue::from_u64(2));
    assert_eq!(quotient.eject_mode(), Mode::Private);
}

#[test]
fn test_private_by_private() {
    let mut env = Circuit::new();
    let a = Field::new(Mode::Private, value(X), &mut env);
    let b = Field::new(Mode::Private, value(Y), &mut env);
    env.enter_scope("Private / Private");
    let quotient = a.div(&b, &mut env).unwrap();
    assert_eq!(quotient.eject_value(), value(X_BY_Y));
    assert_eq!(quotient.eject_mode(), Mode::Private);
    assert_eq!(env.num_private_in_scope(), 3);
    assert_eq!(env.num_constraints_in_scope(), 5);
    assert_eq!(measured(&env), (0, 0, 3, 5));
    assert!(env.is_satisfied_in_scope());
    env.exit_scope();
    assert_eq!(measured(&env), (0, 0, 5, 5));
}

#[test]
fn test_public_one_by_public_zero() {
    let mut env = Circuit::new();
    let a = Field::new(Mode::Public, FieldValue::from_u64(1), &mut env);
    let b = Field::new(Mode::Public, FieldValue::from_u64(0), &mut env);
    let result = a.div(&b, &mut env);
    assert!(result.is_ok());
    assert!(!env.is_satisfied());
    assert!(!env.is_satisfied_in_scope());
}

#[test]
fn test_quotient_is_the_native_quotient_for_every_mode_pair() {
    for mode_a in MODES {
        for mode_b in MODES {
            let mut env = Circuit::new();
            let a = Field::new(mode_a, value(X), &mut env);
            let b = Field::new(mode_b, value(Y), &mut env);
            let quotient = a.div(&b, &mut env).unwrap();
            assert_eq!(quotient.eject_value(), value(X).div(&value(Y)).unwrap());
            assert_eq!(quotient.eject_value(), value(X_BY_Y));
            assert_eq!(quotient.eject_value().mul(&value(Y)), value(X));
        }
    }
}

#[test]
fn test_division_by_one_is_the_identity() {
    for mode_a in MODES {
        for mode_b in MODES {
            for dividend in [FieldValue::zero(), FieldValue::one(), value(X)] {
                let mut env = Circuit::new();
                let a = Field::new(mode_a, dividend, &mut env);
                let one = Field::new(mode_b, FieldValue::one(), &mut env);
                let quotient = a.div(&one, &mut env).unwrap();
                assert_eq!(quotient.eject_value(), dividend);
                assert!(env.is_satisfied());
                if mode_b.is_constant() {
                    assert_eq!(quotient.eject_mode(), mode_a);
                }
            }
        }
    }
}

#[test]
fn test_division_by_the_constant_one_without_allocation() {
    for mode_a in MODES {
        let mut env = Circuit::new();
        let a = Field::new(mode_a, value(X), &mut env);
        let quotient = a.div(&Field::one(), &mut env).unwrap();
        assert_eq!(quotient.eject_value(), value(X));
        assert_eq!(quotient.eject_mode(), mode_a);
    }
}

#[test]
fn test_division_by_a_constant_zero_halts() {
    for mode_a in MODES {
        for dividend in [FieldValue::zero(), FieldValue::one(), value(X)] {
            let mut env = Circuit::new();
            let a = Field::new(mode_a, dividend, &mut env);
            let zero = Field::new(Mode::Constant, FieldValue::zero(), &mut env);
            env.enter_scope("Div by Zero");
            let halt = a.div(&zero, &mut env).unwrap_err();
            assert_eq!(halt.message(), "Attempted to divide by zero.");
            // A halt leaves the circuit as it was.
            assert_eq!(measured(&env), (0, 0, 0, 0));
            assert!(env.is_satisfied());
        }
    }
}

#[test]
fn test_div_assign_that_halts_leaves_the_dividend() {
    let mut env = Circuit::new();
    let mut a = Field::new(Mode::Private, value(X), &mut env);
    let halt = a.div_assign(&Field::zero(), &mut env).unwrap_err();
    assert_eq!(halt.message(), "Attempted to divide by zero.");
    assert_eq!(a.eject_value(), value(X));
    assert_eq!(a.eject_mode(), Mode::Private);
    assert_eq!(env.num_private(), 1);
    assert_eq!(env.num_constants(), 0);
    assert_eq!(env.num_constraints(), 0);
}

#[test]
fn test_division_by_a_variable_zero_is_unsatisfied() {
    for mode_a in MODES {
        for mode_b in [Mode::Public, Mode::Private] {
            for dividend in [FieldValue::zero(), FieldValue::one(), value(X)] {
                let mut env = Circuit::new();
                let a = Field::new(mode_a, dividend, &mut env);
                let b = Field::new(mode_b, FieldValue::zero(), &mut env);
                assert!(env.is_satisfied());
                env.enter_scope("Div by Zero");
                let quotient = a.div(&b, &mut env).unwrap();
                assert!(!env.is_satisfied());
                assert!(!env.is_satisfied_in_scope());
                // The dividend stands in for the quotient.
                assert_eq!(quotient.eject_value(), dividend);
                assert_eq!(quotient.eject_mode(), Mode::Private);
                assert_eq!(measured(&env), (0, 0, 3, 5));
            }
        }
    }
}

#[test]
fn test_division_keeps_a_satisfied_circuit_satisfied() {
    for mode_a in MODES {
        for mode_b in MODES {
            let mut env = Circuit::new();
            let a = Field::new(mode_a, value(X), &mut env);
            let b = Field::new(mode_b, value(Y), &mut env);
            a.div(&b, &mut env).unwrap();
            assert!(env.is_satisfied());
            assert!(env.is_satisfied_in_scope());
        }
    }
}

#[test]
fn test_division_keeps_an_unsatisfied_circuit_unsatisfied() {
    for mode_a in MODES {
        for mode_b in MODES {
            let mut env = Circuit::new();
            env.enforce(FieldValue::from_u64(2), FieldValue::from_u64(2), FieldValue::from_u64(5));
            let a = Field::new(mode_a, value(X), &mut env);
            let b = Field::new(mode_b, value(Y), &mut env);
            env.enter_scope("Div");
            a.div(&b, &mut env).unwrap();
            assert!(!env.is_satisfied());
            assert!(env.is_satisfied_in_scope());
        }
    }
}

#[test]
fn test_count_conforms_to_the_measured_cost() {
    for mode_a in MODES {
        for mode_b in MODES {
            if mode_a.is_constant() && !mode_b.is_constant() {
                continue;
            }
            let mut env = Circuit::new();
            let a = Field::new(mode_a, value(X), &mut env);
            let b = Field::new(mode_b, value(Y), &mut env);
            env.enter_scope("Div");
            a.div(&b, &mut env).unwrap();
            let (constants, public, private, constraints) = measured(&env);
            let count = Field::count(&(mode_a, mode_b));
            assert!(count.matches(
                constants as u64,
                public as u64,
                private as u64,
                constraints as u64
            ));
        }
    }
}

#[test]
fn test_count_of_a_constant_dividend_over_a_variable() {
    for mode_b in [Mode::Public, Mode::Private] {
        let mut env = Circuit::new();
        let a = Field::new(Mode::Constant, value(X), &mut env);
        let b = Field::new(mode_b, value(Y), &mut env);
        env.enter_scope("Div");
        a.div(&b, &mut env).unwrap();
        assert_eq!(measured(&env), (0, 0, 3, 5));
        assert_eq!(Field::count(&(Mode::Constant, mode_b)), Count::is(1, 0, 0, 0));
    }
}

#[test]
fn test_count_table() {
    assert_eq!(Field::count(&(Mode::Constant, Mode::Constant)), Count::is(1, 0, 0, 0));
    assert_eq!(Field::count(&(Mode::Constant, Mode::Public)), Count::is(1, 0, 0, 0));
    assert_eq!(Field::count(&(Mode::Constant, Mode::Private)), Count::is(1, 0, 0, 0));
    assert_eq!(Field::count(&(Mode::Public, Mode::Constant)), Count::is(1, 0, 0, 0));
    assert_eq!(Field::count(&(Mode::Private, Mode::Constant)), Count::is(1, 0, 0, 0));
    assert_eq!(Field::count(&(Mode::Public, Mode::Public)), Count::is(0, 0, 3, 5));
    assert_eq!(Field::count(&(Mode::Public, Mode::Private)), Count::is(0, 0, 3, 5));
    assert_eq!(Field::count(&(Mode::Private, Mode::Public)), Count::is(0, 0, 3, 5));
    assert_eq!(Field::count(&(Mode::Private, Mode::Private)), Count::is(0, 0, 3, 5));
}

#[test]
fn test_output_mode_table() {
    let mut env = Circuit::new();
    let constant = |value: u64| CircuitType::Constant(Field::new(
        Mode::Constant,
        FieldValue::from_u64(value),
        &mut Circuit::new(),
    ));
    let public = CircuitType::from(&Field::new(Mode::Public, value(X), &mut env));
    let private = CircuitType::from(&Field::new(Mode::Private, value(X), &mut env));
    assert_eq!(public.mode(), Mode::Public);
    assert_eq!(private.mode(), Mode::Private);
    assert_eq!(constant(1).mode(), Mode::Constant);

    assert_eq!(Field::output_mode(&(constant(6), constant(3))), Mode::Constant);
    assert_eq!(Field::output_mode(&(constant(6), constant(1))), Mode::Constant);
    assert_eq!(Field::output_mode(&(public, constant(1))), Mode::Public);
    assert_eq!(Field::output_mode(&(public, constant(3))), Mode::Private);
    assert_eq!(Field::output_mode(&(public, constant(0))), Mode::Private);
    assert_eq!(Field::output_mode(&(private, constant(1))), Mode::Private);
    assert_eq!(Field::output_mode(&(private, constant(3))), Mode::Private);
    assert_eq!(Field::output_mode(&(constant(6), public)), Mode::Private);
    assert_eq!(Field::output_mode(&(constant(6), private)), Mode::Private);
    assert_eq!(Field::output_mode(&(public, public)), Mode::Private);
    assert_eq!(Field::output_mode(&(public, private)), Mode::Private);
    assert_eq!(Field::output_mode(&(private, public)), Mode::Private);
    assert_eq!(Field::output_mode(&(private, private)), Mode::Private);
}

#[test]
fn test_output_mode_conforms_to_the_quotient() {
    for mode_a in MODES {
        for mode_b in MODES {
            for divisor in [FieldValue::one(), FieldValue::from_u64(3), value(Y)] {
                let mut env = Circuit::new();
                let a = Field::new(mode_a, value(X), &mut env);
                let b = Field::new(mode_b, divisor, &mut env);
                let quotient = a.div(&b, &mut env).unwrap();
                let predicted = Field::output_mode(&(CircuitType::from(&a), CircuitType::from(&b)));
                assert_eq!(predicted, quotient.eject_mode());
            }
        }
    }
}

#[test]
fn test_division_leaves_its_operands() {
    let mut env = Circuit::new();
    let a = Field::new(Mode::Public, value(X), &mut env);
    let b = Field::new(Mode::Private, value(Y), &mut env);
    let _ = a.div(&b, &mut env).unwrap();
    assert_eq!(a.eject_value(), value(X));
    assert_eq!(a.eject_mode(), Mode::Public);
    assert_eq!(b.eject_value(), value(Y));
    assert_eq!(b.eject_mode(), Mode::Private);
}

#[test]
fn test_div_assign_replaces_the_dividend() {
    let mut env = Circuit::new();
    let mut a = Field::new(Mode::Public, value(X), &mut env);
    let b = Field::new(Mode::Public, value(Y), &mut env);
    a.div_assign(&b, &mut env).unwrap();
    assert_eq!(a.eject_value(), value(X_BY_Y));
    assert_eq!(a.eject_mode(), Mode::Private);
}

#[test]
fn test_division_registers_the_quotient_binding() {
    let mut env = Circuit::new();
    let a = Field::new(Mode::Public, FieldValue::from_u64(6), &mut env);
    let b = Field::new(Mode::Public, FieldValue::from_u64(3), &mut env);
    a.div(&b, &mut env).unwrap();
    assert_eq!(env.num_public(), 2);
    assert_eq!(env.num_private(), 3);
    assert_eq!(env.num_constraints(), 5);
    assert_eq!(env.num_constants(), 0);
}
