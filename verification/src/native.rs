//! Native values of the base field, outside of any circuit.
//!
//! A value is held as the four little-endian 64-bit limbs of its canonical
//! integer, which is always below the field's modulus. Comparisons are done
//! here on the limbs; multiplication and inversion are left to the field
//! implementation of `snarkvm_fields`, instantiated at the base field of the
//! Edwards curve over BLS12-377.

use snarkvm_curves::edwards_bls12::Fq;
use snarkvm_fields::{Field as FieldOps, PrimeField};
use snarkvm_utilities::BigInteger256;
use vstd::arithmetic::div_mod::{lemma_mul_mod_noop_general, lemma_small_mod};
use vstd::arithmetic::mul::{lemma_mul_is_associative, lemma_mul_is_commutative};
use vstd::prelude::*;

verus! {

/// The least significant limb of the modulus.
pub const MODULUS_LIMB_0: u64 = 0x0a11_8000_0000_0001;

/// The second limb of the modulus.
pub const MODULUS_LIMB_1: u64 = 0x59aa_76fe_d000_0001;

/// The third limb of the modulus.
pub const MODULUS_LIMB_2: u64 = 0x60b4_4d1e_5c37_b001;

/// The most significant limb of the modulus.
pub const MODULUS_LIMB_3: u64 = 0x12ab_655e_9a2c_a556;

/// The number of data bits that one field element can carry.
pub const CAPACITY: u32 = 252;

/// The prime order of the base field.
pub open spec fn modulus() -> nat {
    8444461749428370424248824938781546531375899335154063827935233455917409239041nat
}

/// The integer that four little-endian 64-bit limbs stand for.
pub open spec fn limbs_value(limbs: [u64; 4]) -> nat {
    (limbs[0] as nat) + (limbs[1] as nat) * 0x1_0000_0000_0000_0000nat + (limbs[2] as nat)
        * 0x1_0000_0000_0000_0000_0000_0000_0000_0000nat + (limbs[3] as nat)
        * 0x1_0000_0000_0000_0000_0000_0000_0000_0000_0000_0000_0000_0000nat
}

/// The product of two field elements.
pub open spec fn field_mul(a: nat, b: nat) -> nat {
    (a * b) % modulus()
}

/// Whether `r` is the field element that multiplies with `a` to one.
pub open spec fn is_inverse(a: nat, r: nat) -> bool {
    r < modulus() && field_mul(a, r) == 1
}

/// Whether some field element multiplies with `a` to one.
pub open spec fn has_inverse(a: nat) -> bool {
    exists|r: nat| is_inverse(a, r)
}

/// The multiplicative inverse of `a`, where `a` has one.
pub open spec fn field_inv(a: nat) -> nat
    recommends
        has_inverse(a),
{
    choose|r: nat| is_inverse(a, r)
}

/// The quotient of `a` by `b`, where `b` has an inverse.
pub open spec fn field_div(a: nat, b: nat) -> nat
    recommends
        has_inverse(b),
{
    field_mul(a, field_inv(b))
}

/// The limbs of the modulus stand for the modulus.
pub proof fn lemma_modulus_limbs()
    ensures
        limbs_value([MODULUS_LIMB_0, MODULUS_LIMB_1, MODULUS_LIMB_2, MODULUS_LIMB_3])
            == modulus(),
{
}

/// Distinct canonical limbs stand for distinct integers.
pub proof fn lemma_limbs_value_injective(a: [u64; 4], b: [u64; 4])
    requires
        limbs_value(a) == limbs_value(b),
    ensures
        a[0] == b[0],
        a[1] == b[1],
        a[2] == b[2],
        a[3] == b[3],
{
    let base = 0x1_0000_0000_0000_0000int;
    let a_high = a[1] + base * (a[2] + base * a[3]);
    let b_high = b[1] + base * (b[2] + base * b[3]);
    assert(limbs_value(a) == a[0] + base * a_high) by (nonlinear_arith)
        requires
            base == 0x1_0000_0000_0000_0000int,
            a_high == a[1] + base * (a[2] + base * a[3]),
            limbs_value(a) == a[0] + a[1] * 0x1_0000_0000_0000_0000
                + a[2] * 0x1_0000_0000_0000_0000_0000_0000_0000_0000
                + a[3] * 0x1_0000_0000_0000_0000_0000_0000_0000_0000_0000_0000_0000_0000,
    ;
    assert(limbs_value(b) == b[0] + base * b_high) by (nonlinear_arith)
        requires
            base == 0x1_0000_0000_0000_0000int,
            b_high == b[1] + base * (b[2] + base * b[3]),
            limbs_value(b) == b[0] + b[1] * 0x1_0000_0000_0000_0000
                + b[2] * 0x1_0000_0000_0000_0000_0000_0000_0000_0000
                + b[3] * 0x1_0000_0000_0000_0000_0000_0000_0000_0000_0000_0000_0000_0000,
    ;
    lemma_digit_split(a[0] as int, a_high, b[0] as int, b_high);
    lemma_digit_split(a[1] as int, a[2] + base * a[3], b[1] as int, b[2] + base * b[3]);
    lemma_digit_split(a[2] as int, a[3] as int, b[2] as int, b[3] as int);
}

/// Two integers written as a 64-bit digit below a multiple of 2^64 agree
/// only where both the digit and the multiple agree.
proof fn lemma_digit_split(low_1: int, high_1: int, low_2: int, high_2: int)
    requires
        0 <= low_1 < 0x1_0000_0000_0000_0000,
        0 <= low_2 < 0x1_0000_0000_0000_0000,
        low_1 + 0x1_0000_0000_0000_0000 * high_1 == low_2 + 0x1_0000_0000_0000_0000 * high_2,
    ensures
        low_1 == low_2,
        high_1 == high_2,
{
}

/// An element has at most one inverse.
pub proof fn lemma_inverse_unique(a: nat, r1: nat, r2: nat)
    requires
        is_inverse(a, r1),
        is_inverse(a, r2),
    ensures
        r1 == r2,
{
    let m = modulus() as int;
    let (a, r1, r2) = (a as int, r1 as int, r2 as int);
    assert((a * r1) % m == 1);
    assert((a * r2) % m == 1);
    // r1 = r1 * (a * r2) = (a * r1) * r2 = r2, all modulo m.
    assert((r1 * (a * r2)) % m == r1) by {
        lemma_mul_mod_noop_general(r1, a * r2, m);
        lemma_small_mod(r1 as nat, m as nat);
        assert((r1 % m) * ((a * r2) % m) == r1) by (nonlinear_arith)
            requires
                r1 % m == r1,
                (a * r2) % m == 1,
        ;
    }
    assert(((a * r1) * r2) % m == r2) by {
        lemma_mul_mod_noop_general(a * r1, r2, m);
        lemma_small_mod(r2 as nat, m as nat);
        assert(((a * r1) % m) * (r2 % m) == r2) by (nonlinear_arith)
            requires
                r2 % m == r2,
                (a * r1) % m == 1,
        ;
    }
    assert(r1 * (a * r2) == (a * r1) * r2) by {
        lemma_mul_is_associative(r1, a, r2);
        lemma_mul_is_commutative(r1, a);
    }
}

/// Any witnessed inverse is the inverse.
pub proof fn lemma_inverse_is_field_inv(a: nat, r: nat)
    requires
        is_inverse(a, r),
    ensures
        has_inverse(a),
        field_inv(a) == r,
{
    lemma_inverse_unique(a, r, field_inv(a));
}

/// Dividing and then multiplying by the same invertible element gives the
/// dividend back.
pub proof fn lemma_div_mul_cancel(a: nat, b: nat)
    requires
        a < modulus(),
        has_inverse(b),
    ensures
        field_mul(field_div(a, b), b) == a,
{
    let m = modulus() as int;
    let r = field_inv(b) as int;
    let (a, b) = (a as int, b as int);
    let q = (a * r) % m;
    assert((b * r) % m == 1);
    // q * b = (a * r) * b = a * (b * r) = a * 1 = a, all modulo m.
    assert((q * b) % m == ((a * r) * b) % m) by {
        lemma_mul_mod_noop_general(a * r, b, m);
        lemma_mul_mod_noop_general(q, b, m);
        lemma_small_mod(q as nat, m as nat);
    }
    assert((a * r) * b == a * (b * r)) by {
        lemma_mul_is_associative(a, r, b);
        lemma_mul_is_commutative(r, b);
    }
    assert((a * (b * r)) % m == a) by {
        lemma_mul_mod_noop_general(a, b * r, m);
        lemma_small_mod(a as nat, m as nat);
        assert((a % m) * ((b * r) % m) == a) by (nonlinear_arith)
            requires
                a % m == a,
                (b * r) % m == 1,
        ;
    }
}

/// One is its own inverse, so dividing by one changes nothing.
pub proof fn lemma_div_by_one(a: nat)
    requires
        a < modulus(),
    ensures
        is_inverse(1, 1),
        field_div(a, 1) == a,
{
    lemma_small_mod(1, modulus());
    lemma_inverse_is_field_inv(1, 1);
    lemma_small_mod(a, modulus());
    assert(a * 1 == a);
}

/// An inverse is never zero.
pub proof fn lemma_inverse_nonzero(a: nat, r: nat)
    requires
        is_inverse(a, r),
    ensures
        r != 0,
{
    if r == 0 {
        assert(a * 0 == 0);
        lemma_small_mod(0, modulus());
    }
}

/// Multiplies two field elements given by their canonical limbs.
///
/// Trusted: the arguments are turned into elements of the outside field by
/// `PrimeField::from_bigint`, multiplied by its `Mul`, and the product is
/// read back by `PrimeField::to_bigint`. The contract claims that the limbs
/// that come back stand for the product of the two integers modulo the
/// field's modulus. `from_bigint` refuses integers outside of the field,
/// which the precondition rules out.
#[verifier::external_body]
fn fq_mul(a: &[u64; 4], b: &[u64; 4]) -> (r: [u64; 4])
    requires
        limbs_value(*a) < modulus(),
        limbs_value(*b) < modulus(),
    ensures
        limbs_value(r) == (limbs_value(*a) * limbs_value(*b)) % modulus(),
{
    let x = Fq::from_bigint(BigInteger256(*a)).unwrap();
    let y = Fq::from_bigint(BigInteger256(*b)).unwrap();
    (x * y).to_bigint().0
}

/// Inverts a field element given by its canonical limbs.
///
/// Trusted: the argument is turned into an element of the outside field by
/// `PrimeField::from_bigint` and inverted by `Field::inverse`, whose result
/// is read back by `PrimeField::to_bigint`. The contract claims that zero
/// has no inverse, and that for any other element the limbs that come back
/// stand for a canonical integer whose product with the argument is one
/// modulo the field's modulus.
#[verifier::external_body]
fn fq_inverse(a: &[u64; 4]) -> (r: Option<[u64; 4]>)
    requires
        limbs_value(*a) < modulus(),
    ensures
        limbs_value(*a) == 0 <==> r is None,
        r matches Some(limbs) ==> limbs_value(limbs) < modulus() && (limbs_value(*a)
            * limbs_value(limbs)) % modulus() == 1,
{
    Fq::from_bigint(BigInteger256(*a)).unwrap().inverse().map(|x| x.to_bigint().0)
}

/// An element of the base field.
#[derive(Clone, Copy, Debug, PartialEq, Eq, Hash)]
pub struct FieldValue {
    limbs: [u64; 4],
}

impl View for FieldValue {
    type V = nat;

    /// The canonical integer of the element.
    closed spec fn view(&self) -> nat {
        limbs_value(self.limbs)
    }
}

impl FieldValue {
    /// Every element is held by its canonical integer, below the modulus.
    #[verifier::type_invariant]
    pub open spec fn is_canonical(&self) -> bool {
        self@ < modulus()
    }

    /// The additive identity.
    pub fn zero() -> (r: FieldValue)
        ensures
            r@ == 0,
    {
        FieldValue { limbs: [0, 0, 0, 0] }
    }

    /// The multiplicative identity.
    pub fn one() -> (r: FieldValue)
        ensures
            r@ == 1,
    {
        FieldValue { limbs: [1, 0, 0, 0] }
    }

    /// The element that stands for a small integer.
    pub fn from_u64(n: u64) -> (r: FieldValue)
        ensures
            r@ == n,
    {
        FieldValue { limbs: [n, 0, 0, 0] }
    }

    /// The element with the given canonical limbs, least significant first,
    /// or `None` where they stand for an integer outside of the field.
    pub fn from_limbs(limbs: [u64; 4]) -> (r: Option<FieldValue>)
        ensures
            r is Some <==> limbs_value(limbs) < modulus(),
            r matches Some(v) ==> v@ == limbs_value(limbs),
    {
        proof {
            lemma_modulus_limbs();
        }
        let below = if limbs[3] != MODULUS_LIMB_3 {
            limbs[3] < MODULUS_LIMB_3
        } else if limbs[2] != MODULUS_LIMB_2 {
            limbs[2] < MODULUS_LIMB_2
        } else if limbs[1] != MODULUS_LIMB_1 {
            limbs[1] < MODULUS_LIMB_1
        } else {
            limbs[0] < MODULUS_LIMB_0
        };
        if below {
            Some(FieldValue { limbs })
        } else {
            None
        }
    }

    /// The canonical limbs of the element, least significant first.
    pub closed spec fn spec_limbs(&self) -> [u64; 4] {
        self.limbs
    }

    /// Two elements are the same exactly if their limbs are.
    pub proof fn lemma_limbs_determine(self, other: FieldValue)
        ensures
            limbs_value(self.spec_limbs()) == self@,
            (self@ == other@) == (self == other),
            (self@ == other@) == (self.spec_limbs()[0] == other.spec_limbs()[0]
                && self.spec_limbs()[1] == other.spec_limbs()[1] && self.spec_limbs()[2]
                == other.spec_limbs()[2] && self.spec_limbs()[3] == other.spec_limbs()[3]),
    {
        if self@ == other@ {
            lemma_limbs_value_injective(self.limbs, other.limbs);
            assert(self.limbs =~= other.limbs);
        }
    }

    /// The canonical limbs of the element, least significant first.
    pub fn to_limbs(&self) -> (r: [u64; 4])
        ensures
            r == self.spec_limbs(),
            limbs_value(r) == self@,
            self@ < modulus(),
    {
        proof {
            use_type_invariant(self);
        }
        self.limbs
    }

    /// Whether the element is the additive identity.
    pub fn is_zero(&self) -> (r: bool)
        ensures
            r == (self@ == 0),
    {
        self.limbs[0] == 0 && self.limbs[1] == 0 && self.limbs[2] == 0 && self.limbs[3] == 0
    }

    /// Whether the element is the multiplicative identity.
    pub fn is_one(&self) -> (r: bool)
        ensures
            r == (self@ == 1),
    {
        self.limbs[0] == 1 && self.limbs[1] == 0 && self.limbs[2] == 0 && self.limbs[3] == 0
    }

    /// Whether two elements are the same.
    pub fn equals(&self, other: &FieldValue) -> (r: bool)
        ensures
            r == (self@ == other@),
    {
        proof {
            if self@ == other@ {
                lemma_limbs_value_injective(self.limbs, other.limbs);
            }
        }
        self.limbs[0] == other.limbs[0] && self.limbs[1] == other.limbs[1] && self.limbs[2]
            == other.limbs[2] && self.limbs[3] == other.limbs[3]
    }

    /// The product of two elements.
    pub fn mul(&self, other: &FieldValue) -> (r: FieldValue)
        ensures
            r@ == field_mul(self@, other@),
    {
        proof {
            use_type_invariant(self);
            use_type_invariant(other);
        }
        let limbs = fq_mul(&self.limbs, &other.limbs);
        FieldValue { limbs }
    }

    /// The multiplicative inverse of the element, which all but zero have.
    pub fn inverse(&self) -> (r: Option<FieldValue>)
        ensures
            r is None <==> self@ == 0,
            r matches Some(v) ==> is_inverse(self@, v@) && v@ == field_inv(self@),
    {
        proof {
            use_type_invariant(self);
        }
        match fq_inverse(&self.limbs) {
            Some(limbs) => {
                proof {
                    lemma_inverse_is_field_inv(limbs_value(self.limbs), limbs_value(limbs));
                }
                Some(FieldValue { limbs })
            },
            None => None,
        }
    }

    /// The quotient of the element by another, which exists unless the
    /// divisor is zero.
    pub fn div(&self, other: &FieldValue) -> (r: Option<FieldValue>)
        ensures
            r is None <==> other@ == 0,
            r is Some ==> has_inverse(other@),
            r matches Some(q) ==> q@ == field_div(self@, other@) && field_mul(q@, other@)
                == self@,
    {
        match other.inverse() {
            Some(inverse) => {
                proof {
                    use_type_invariant(self);
                    lemma_div_mul_cancel(self@, other@);
                }
                Some(self.mul(&inverse))
            },
            None => None,
        }
    }
}

} // verus!
