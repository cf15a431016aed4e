use circuit_field::native::{
    CAPACITY, MODULUS_LIMB_0, MODULUS_LIMB_1, MODULUS_LIMB_2, MODULUS_LIMB_3,
};
use circuit_field::FieldValue;
use snarkvm_curves::edwards_bls12::{Fq, FqParameters};
use snarkvm_fields::{Field, FieldParameters, One, PrimeField, Zero};
use snarkvm_utilities::{TestRng, Uniform};

const MODULUS: [u64; 4] = [MODULUS_LIMB_0, MODULUS_LIMB_1, MODULUS_LIMB_2, MODULUS_LIMB_3];

const X: [u64; 4] =
    [2464388554683811993, 12302652060662169617, 18364758544493064720, 1311768467463790320];

const Y: [u64; 4] =
    [9843086184167632639, 4822678189205111, 1234907033823333871, 71737338064426034];

fn value(limbs: [u64; 4]) -> FieldValue {
    FieldValue::from_limbs(limbs).unwrap()
}

#[test]
fn test_modulus_is_that_of_the_outside_field() {
    assert_eq!(MODULUS, FqParameters::MODULUS.0);
    assert_eq!(MODULUS, Fq::modulus().0);
    assert_eq!(
        MODULUS,
        [725501752471715841, 6461107452199829505, 6968279316240510977, 1345280370688173398]
    );
}

#[test]
fn test_capacity_is_that_of_the_outside_field() {
    assert_eq!(CAPACITY, FqParameters::CAPACITY);
    assert_eq!(CAPACITY, 252);
}

#[test]
fn test_zero_and_one() {
    assert_eq!(FieldValue::zero().to_limbs(), [0, 0, 0, 0]);
    assert_eq!(FieldValue::one().to_limbs(), [1, 0, 0, 0]);
    assert_eq!(FieldValue::zero().to_limbs(), Fq::zero().to_bigint().0);
    assert_eq!(FieldValue::one().to_limbs(), Fq::one().to_bigint().0);
}

#[test]
fn test_from_u64() {
    assert_eq!(FieldValue::from_u64(0), FieldValue::zero());
    assert_eq!(FieldValue::from_u64(1), FieldValue::one());
    assert_eq!(FieldValue::from_u64(6).to_limbs(), [6, 0, 0, 0]);
    assert_eq!(FieldValue::from_u64(u64::MAX).to_limbs(), [u64::MAX, 0, 0, 0]);
    assert_eq!(FieldValue::from_u64(77).to_limbs(), Fq::from(77u64).to_bigint().0);
}

#[test]
fn test_from_limbs_accepts_the_largest_element() {
    let largest = [MODULUS_LIMB_0 - 1, MODULUS_LIMB_1, MODULUS_LIMB_2, MODULUS_LIMB_3];
    assert_eq!(FieldValue::from_limbs(largest).unwrap().to_limbs(), largest);
}

#[test]
fn test_from_limbs_refuses_the_modulus_and_above() {
    assert_eq!(FieldValue::from_limbs(MODULUS), None);
    assert_eq!(
        FieldValue::from_limbs([MODULUS_LIMB_0 + 1, MODULUS_LIMB_1, MODULUS_LIMB_2, MODULUS_LIMB_3]),
        None
    );
    assert_eq!(
        FieldValue::from_limbs([0, MODULUS_LIMB_1 + 1, MODULUS_LIMB_2, MODULUS_LIMB_3]),
        None
    );
    assert_eq!(FieldValue::from_limbs([0, 0, MODULUS_LIMB_2 + 1, MODULUS_LIMB_3]), None);
    assert_eq!(FieldValue::from_limbs([0, 0, 0, MODULUS_LIMB_3 + 1]), None);
    assert_eq!(FieldValue::from_limbs([u64::MAX; 4]), None);
}

#[test]
fn test_from_limbs_compares_from_the_most_significant_limb() {
    // A larger low limb does not matter below a smaller high limb.
    assert!(FieldValue::from_limbs([u64::MAX, u64::MAX, u64::MAX, MODULUS_LIMB_3 - 1]).is_some());
    assert!(FieldValue::from_limbs([u64::MAX, u64::MAX, MODULUS_LIMB_2 - 1, MODULUS_LIMB_3])
        .is_some());
    assert!(FieldValue::from_limbs([u64::MAX, MODULUS_LIMB_1 - 1, MODULUS_LIMB_2, MODULUS_LIMB_3])
        .is_some());
}

#[test]
fn test_from_limbs_agrees_with_the_outside_field() {
    let mut rng = TestRng::fixed(11);
    for _ in 0..1000 {
        let limbs: [u64; 4] = [
            Uniform::rand(&mut rng),
            Uniform::rand(&mut rng),
            Uniform::rand(&mut rng),
            // Keep the top limb near the modulus, so that both outcomes occur.
            MODULUS_LIMB_3 - 1 + (u64::rand(&mut rng) % 3),
        ];
        let outside = Fq::from_bigint(snarkvm_utilities::BigInteger256(limbs));
        assert_eq!(FieldValue::from_limbs(limbs).is_some(), outside.is_some());
    }
}

#[test]
fn test_is_zero_and_is_one() {
    assert!(FieldValue::zero().is_zero());
    assert!(!FieldValue::zero().is_one());
    assert!(FieldValue::one().is_one());
    assert!(!FieldValue::one().is_zero());
    assert!(!value([0, 1, 0, 0]).is_zero());
    assert!(!value([0, 0, 1, 0]).is_zero());
    assert!(!value([0, 0, 0, 1]).is_zero());
    assert!(!value([1, 1, 0, 0]).is_one());
    assert!(!value([1, 0, 1, 0]).is_one());
    assert!(!value([1, 0, 0, 1]).is_one());
    assert!(!value(X).is_zero());
    assert!(!value(X).is_one());
}

#[test]
fn test_equals() {
    assert!(value(X).equals(&value(X)));
    assert!(!value(X).equals(&value(Y)));
    assert!(!value([1, 2, 3, 4]).equals(&value([0, 2, 3, 4])));
    assert!(!value([1, 2, 3, 4]).equals(&value([1, 0, 3, 4])));
    assert!(!value([1, 2, 3, 4]).equals(&value([1, 2, 0, 4])));
    assert!(!value([1, 2, 3, 4]).equals(&value([1, 2, 3, 0])));
}

#[test]
fn test_mul_small() {
    assert_eq!(FieldValue::from_u64(2).mul(&FieldValue::from_u64(3)), FieldValue::from_u64(6));
    assert_eq!(FieldValue::from_u64(0).mul(&value(X)), FieldValue::zero());
    assert_eq!(FieldValue::one().mul(&value(X)), value(X));
    assert_eq!(value(X).mul(&FieldValue::one()), value(X));
}

#[test]
fn test_mul_wraps_at_the_modulus() {
    // (-1) * (-1) = 1.
    let minus_one = value([MODULUS_LIMB_0 - 1, MODULUS_LIMB_1, MODULUS_LIMB_2, MODULUS_LIMB_3]);
    assert_eq!(minus_one.mul(&minus_one), FieldValue::one());
    assert_eq!(
        FieldValue::from_u64(u64::MAX).mul(&FieldValue::from_u64(u64::MAX)).to_limbs(),
        [1, u64::MAX - 1, 0, 0]
    );
}

#[test]
fn test_mul_exact() {
    assert_eq!(
        value(X).mul(&value(Y)).to_limbs(),
        [15141655690598174065, 15684156506869297946, 5410758344246489528, 897204344508711275]
    );
    assert_eq!(value(X).mul(&value(Y)), value(Y).mul(&value(X)));
}

#[test]
fn test_inverse_of_zero() {
    assert_eq!(FieldValue::zero().inverse(), None);
}

#[test]
fn test_inverse_exact() {
    assert_eq!(FieldValue::one().inverse(), Some(FieldValue::one()));
    assert_eq!(
        FieldValue::from_u64(2).inverse().unwrap().to_limbs(),
        [9586122913090633729, 12453925762954690560, 3484139658120255488, 672640185344086699]
    );
    assert_eq!(
        FieldValue::from_u64(3).inverse().unwrap().to_limbs(),
        [12781497217454178305, 16605234350606254080, 10794434235396857856, 896853580458782265]
    );
    assert_eq!(
        value(Y).inverse().unwrap().to_limbs(),
        [15980930425844643714, 8078417229400784696, 3824168585410718916, 447728291776100120]
    );
}

#[test]
fn test_inverse_multiplies_to_one() {
    let mut rng = TestRng::fixed(12);
    for _ in 0..1000 {
        let element: Fq = Uniform::rand(&mut rng);
        let a = value(element.to_bigint().0);
        match a.inverse() {
            Some(inverse) => {
                assert!(a.mul(&inverse).is_one());
                assert_eq!(inverse.to_limbs(), element.inverse().unwrap().to_bigint().0);
            }
            None => assert!(a.is_zero()),
        }
    }
}

#[test]
fn test_div_native() {
    assert_eq!(FieldValue::from_u64(6).div(&FieldValue::from_u64(3)), Some(FieldValue::from_u64(2)));
    assert_eq!(FieldValue::from_u64(6).div(&FieldValue::one()), Some(FieldValue::from_u64(6)));
    assert_eq!(FieldValue::from_u64(6).div(&FieldValue::zero()), None);
    assert_eq!(FieldValue::zero().div(&FieldValue::zero()), None);
    assert_eq!(FieldValue::zero().div(&value(X)), Some(FieldValue::zero()));
    assert_eq!(
        FieldValue::from_u64(7).div(&FieldValue::from_u64(5)).unwrap().to_limbs(),
        [435301051483029506, 3876664471319897703, 491618775002396263, 807168222412904039]
    );
    assert_eq!(
        value(X).div(&value(Y)).unwrap().to_limbs(),
        [8017772762491997680, 9202621577184589413, 669515457256946010, 486723892169217756]
    );
}

#[test]
fn test_div_then_mul_gives_the_dividend_back() {
    let mut rng = TestRng::fixed(13);
    for _ in 0..1000 {
        let first: Fq = Uniform::rand(&mut rng);
        let second: Fq = Uniform::rand(&mut rng);
        let a = value(first.to_bigint().0);
        let b = value(second.to_bigint().0);
        match a.div(&b) {
            Some(quotient) => {
                assert_eq!(quotient.mul(&b), a);
                assert_eq!(quotient.to_limbs(), (first / second).to_bigint().0);
            }
            None => assert!(b.is_zero()),
        }
    }
}

#[test]
fn test_mul_agrees_with_the_outside_field() {
    let mut rng = TestRng::fixed(14);
    for _ in 0..1000 {
        let first: Fq = Uniform::rand(&mut rng);
        let second: Fq = Uniform::rand(&mut rng);
        let product = value(first.to_bigint().0).mul(&value(second.to_bigint().0));
        assert_eq!(product.to_limbs(), (first * second).to_bigint().0);
    }
}
