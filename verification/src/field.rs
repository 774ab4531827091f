//! The scalar field of BLS12-381.
//!
//! A [`Scalar`] holds the canonical integer of a field element as four 64-bit
//! limbs. Its view is that integer, and every operation is stated over it as
//! arithmetic modulo [`modulus`]. The arithmetic itself is done by the `ff`
//! implementation of `pairing::bls12_381::Fr`.

use ff::Field;
use ff::PrimeField;
use pairing::bls12_381::Fr;
use pairing::bls12_381::FrRepr;
use vstd::arithmetic::div_mod::lemma_add_mod_noop;
use vstd::arithmetic::div_mod::lemma_mod_twice;
use vstd::arithmetic::div_mod::lemma_mul_mod_noop;
use vstd::arithmetic::div_mod::lemma_small_mod;
use vstd::arithmetic::div_mod::lemma_sub_mod_noop;
use vstd::array::array_as_slice;
use vstd::bytes::spec_u64_from_le_bytes;
use vstd::bytes::spec_u64_to_le_bytes;
use vstd::bytes::u64_from_le_bytes;
use vstd::bytes::u64_to_le_bytes;
use vstd::prelude::*;
use vstd::slice::slice_subrange;

verus! {

/// The weight of one 64-bit limb, `2^64`.
pub open spec fn limb_base() -> nat {
    0x1_0000_0000_0000_0000
}

/// The number that four 64-bit limbs stand for, least significant limb first.
pub open spec fn limbs_value(l: Seq<u64>) -> nat
    recommends
        l.len() == 4,
{
    l[0] as nat + limb_base() * (l[1] as nat + limb_base() * (l[2] as nat + limb_base() * (
    l[3] as nat)))
}

/// The limbs of the field's order, least significant limb first.
pub open spec fn modulus_limbs() -> Seq<u64> {
    seq![0xffff_ffff_0000_0001u64, 0x53bd_a402_fffe_5bfeu64, 0x3339_d808_09a1_d805u64, 0x73ed_a753_299d_7d48u64]
}

/// The order of the scalar field, a prime of 255 bits.
pub open spec fn modulus() -> nat {
    limbs_value(modulus_limbs())
}

/// Addition in the field.
pub open spec fn fadd(a: nat, b: nat) -> nat {
    (a + b) % modulus()
}

/// Subtraction in the field.
pub open spec fn fsub(a: nat, b: nat) -> nat {
    ((a as int - b as int) % (modulus() as int)) as nat
}

/// The additive inverse in the field.
pub open spec fn fneg(a: nat) -> nat {
    fsub(0, a)
}

/// Multiplication in the field.
pub open spec fn fmul(a: nat, b: nat) -> nat {
    (a * b) % modulus()
}

/// `base` raised to `exp` in the field, by repeated multiplication.
pub open spec fn fpow(base: nat, exp: nat) -> nat
    decreases exp,
{
    if exp == 0 {
        1
    } else {
        fmul(fpow(base, (exp - 1) as nat), base)
    }
}

/// Whether `x` is a multiplicative inverse of `a` in the field.
pub open spec fn is_inverse(a: nat, x: nat) -> bool {
    x < modulus() && fmul(a, x) == 1
}

/// The multiplicative inverse of a nonzero element; of no meaning for zero.
pub open spec fn finv(a: nat) -> nat {
    choose|x: nat| is_inverse(a, x)
}

/// The `k`-th 64-bit limb of a number, counted from the least significant.
pub open spec fn limb_of(v: nat, k: nat) -> u64
    decreases k,
{
    if k == 0 {
        (v % limb_base()) as u64
    } else {
        limb_of(v / limb_base(), (k - 1) as nat)
    }
}

/// The 32 bytes that stand for a field element: its four limbs in turn, each
/// least significant byte first.
pub open spec fn scalar_bytes(v: nat) -> Seq<u8> {
    spec_u64_to_le_bytes(limb_of(v, 0)) + spec_u64_to_le_bytes(limb_of(v, 1))
        + spec_u64_to_le_bytes(limb_of(v, 2)) + spec_u64_to_le_bytes(limb_of(v, 3))
}

/// The field element that 32 bytes of a digest give: the bytes read as four
/// limbs, each least significant byte first, with the two highest bits of
/// the last limb dropped, which keeps the number below the modulus.
pub open spec fn digest_scalar(d: Seq<u8>) -> nat
    recommends
        d.len() == 32,
{
    limbs_value(
        seq![
            spec_u64_from_le_bytes(d.subrange(0, 8)),
            spec_u64_from_le_bytes(d.subrange(8, 16)),
            spec_u64_from_le_bytes(d.subrange(16, 24)),
            (spec_u64_from_le_bytes(d.subrange(24, 32)) % 0x4000_0000_0000_0000) as u64,
        ],
    )
}

/// The limbs of a number below `2^256` are the limbs it was put together from.
pub proof fn lemma_limbs_of_value(l: Seq<u64>)
    requires
        l.len() == 4,
    ensures
        limb_of(limbs_value(l), 0) == l[0],
        limb_of(limbs_value(l), 1) == l[1],
        limb_of(limbs_value(l), 2) == l[2],
        limb_of(limbs_value(l), 3) == l[3],
{
    let b = limb_base();
    let v3 = l[3] as nat;
    let v2 = l[2] as nat + b * v3;
    let v1 = l[1] as nat + b * v2;
    let v0 = l[0] as nat + b * v1;
    assert(v0 == limbs_value(l));
    lemma_split_limb(l[0], v1);
    lemma_split_limb(l[1], v2);
    lemma_split_limb(l[2], v3);
    lemma_split_limb(l[3], 0);
    reveal_with_fuel(limb_of, 4);
}

proof fn lemma_split_limb(low: u64, high: nat)
    ensures
        (low as nat + limb_base() * high) % limb_base() == low,
        (low as nat + limb_base() * high) / limb_base() == high,
{
    let b = limb_base() as int;
    vstd::arithmetic::div_mod::lemma_fundamental_div_mod_converse(
        low as int + b * (high as int),
        b,
        high as int,
        low as int,
    );
}

/// The order of the field, written out in decimal.
pub proof fn lemma_modulus_value()
    ensures
        modulus()
            == 52435875175126190479447740508185965837690552500527637822603658699938581184513nat,
{
    assert(modulus_limbs()[0] == 0xffff_ffff_0000_0001u64);
    assert(modulus_limbs()[1] == 0x53bd_a402_fffe_5bfeu64);
    assert(modulus_limbs()[2] == 0x3339_d808_09a1_d805u64);
    assert(modulus_limbs()[3] == 0x73ed_a753_299d_7d48u64);
}

/// Whether two integers stand for the same field element.
pub open spec fn congruent(a: int, b: int) -> bool {
    a % (modulus() as int) == b % (modulus() as int)
}

/// Sums of congruent integers are congruent.
pub proof fn lemma_congruent_sum(a: int, a2: int, b: int, b2: int)
    requires
        congruent(a, a2),
        congruent(b, b2),
    ensures
        congruent(a + b, a2 + b2),
{
    let m = modulus() as int;
    lemma_add_mod_noop(a, b, m);
    lemma_add_mod_noop(a2, b2, m);
}

/// Differences of congruent integers are congruent.
pub proof fn lemma_congruent_difference(a: int, a2: int, b: int, b2: int)
    requires
        congruent(a, a2),
        congruent(b, b2),
    ensures
        congruent(a - b, a2 - b2),
{
    let m = modulus() as int;
    lemma_sub_mod_noop(a, b, m);
    lemma_sub_mod_noop(a2, b2, m);
}

/// Products of congruent integers are congruent.
pub proof fn lemma_congruent_product(a: int, a2: int, b: int, b2: int)
    requires
        congruent(a, a2),
        congruent(b, b2),
    ensures
        congruent(a * b, a2 * b2),
{
    let m = modulus() as int;
    lemma_mul_mod_noop(a, b, m);
    lemma_mul_mod_noop(a2, b2, m);
}

/// The sum in the field is congruent to the sum of the integers, and canonical.
pub proof fn lemma_fadd(a: nat, b: nat)
    ensures
        congruent(fadd(a, b) as int, (a + b) as int),
        fadd(a, b) < modulus(),
{
    lemma_mod_twice((a + b) as int, modulus() as int);
}

/// The product in the field is congruent to the product of the integers, and
/// canonical.
pub proof fn lemma_fmul(a: nat, b: nat)
    ensures
        congruent(fmul(a, b) as int, (a * b) as int),
        fmul(a, b) < modulus(),
{
    lemma_mod_twice((a * b) as int, modulus() as int);
}

/// The difference in the field is congruent to the difference of the
/// integers, and canonical.
pub proof fn lemma_fsub(a: nat, b: nat)
    ensures
        congruent(fsub(a, b) as int, a - b),
        fsub(a, b) < modulus(),
{
    lemma_mod_twice(a - b, modulus() as int);
}

/// The additive inverse in the field is congruent to the negated integer, and
/// canonical.
pub proof fn lemma_fneg(a: nat)
    ensures
        congruent(fneg(a) as int, -a),
        fneg(a) < modulus(),
{
    lemma_fsub(0, a);
}

/// Two canonical numbers that are congruent are the same.
pub proof fn lemma_same_element(a: nat, b: nat)
    requires
        a < modulus(),
        b < modulus(),
        congruent(a as int, b as int),
    ensures
        a == b,
{
    lemma_small_mod(a, modulus());
    lemma_small_mod(b, modulus());
}

/// The numbers that a sequence of field elements stands for.
pub open spec fn scalars_view(s: Seq<Scalar>) -> Seq<nat> {
    s.map_values(|x: Scalar| x@)
}

/// An element of the scalar field, always below [`modulus`].
#[derive(Clone, Copy, Debug, PartialEq, Eq)]
pub struct Scalar {
    limbs: [u64; 4],
}

impl View for Scalar {
    type V = nat;

    closed spec fn view(&self) -> nat {
        limbs_value(self.limbs@)
    }
}

impl Scalar {
    #[verifier::type_invariant]
    spec fn canonical(self) -> bool {
        limbs_value(self.limbs@) < modulus()
    }

    /// The four limbs of the element's integer, least significant first.
    pub closed spec fn spec_limbs(self) -> Seq<u64> {
        self.limbs@
    }

    /// The additive identity.
    pub fn zero() -> (r: Scalar)
        ensures
            r@ == 0,
    {
        Scalar { limbs: [0, 0, 0, 0] }
    }

    /// The multiplicative identity.
    pub fn one() -> (r: Scalar)
        ensures
            r@ == 1,
    {
        Scalar { limbs: [1, 0, 0, 0] }
    }

    /// The element that stands for a 64-bit integer.
    pub fn from_u64(x: u64) -> (r: Scalar)
        ensures
            r@ == x,
    {
        Scalar { limbs: [x, 0, 0, 0] }
    }

    /// The element with the given limbs, where they stand for a number below
    /// the modulus.
    pub fn from_limbs(limbs: [u64; 4]) -> (r: Option<Scalar>)
        ensures
            r is Some <==> limbs_value(limbs@) < modulus(),
            r is Some ==> r->0@ == limbs_value(limbs@) && r->0.spec_limbs() == limbs@,
    {
        if below_modulus(&limbs) {
            Some(Scalar { limbs })
        } else {
            None
        }
    }

    /// The limbs of the element's integer, least significant first. They
    /// stand for the view, which is below the modulus.
    pub fn to_limbs(&self) -> (r: [u64; 4])
        ensures
            r@ == self.spec_limbs(),
            limbs_value(r@) == self@,
            self@ < modulus(),
    {
        proof {
            use_type_invariant(self);
        }
        self.limbs
    }

    /// The 32 bytes that stand for the element.
    pub fn to_bytes(&self) -> (r: Vec<u8>)
        ensures
            r@ == scalar_bytes(self@),
    {
        proof {
            lemma_limbs_of_value(self.limbs@);
        }
        let mut out = u64_to_le_bytes(self.limbs[0]);
        let mut b1 = u64_to_le_bytes(self.limbs[1]);
        let mut b2 = u64_to_le_bytes(self.limbs[2]);
        let mut b3 = u64_to_le_bytes(self.limbs[3]);
        out.append(&mut b1);
        out.append(&mut b2);
        out.append(&mut b3);
        out
    }

    /// The element that the 32 bytes of a digest give.
    pub fn from_digest(d: &[u8; 32]) -> (r: Scalar)
        ensures
            r@ == digest_scalar(d@),
    {
        let s = array_as_slice(d);
        let l0 = u64_from_le_bytes(slice_subrange(s, 0, 8));
        let l1 = u64_from_le_bytes(slice_subrange(s, 8, 16));
        let l2 = u64_from_le_bytes(slice_subrange(s, 16, 24));
        let l3 = u64_from_le_bytes(slice_subrange(s, 24, 32)) % 0x4000_0000_0000_0000;
        Scalar { limbs: [l0, l1, l2, l3] }
    }

    /// Whether this is the additive identity.
    pub fn is_zero(&self) -> (r: bool)
        ensures
            r <==> self@ == 0,
    {
        self.limbs[0] == 0 && self.limbs[1] == 0 && self.limbs[2] == 0 && self.limbs[3] == 0
    }

    /// The sum of two elements.
    pub fn add(&self, other: &Scalar) -> (r: Scalar)
        ensures
            r@ == fadd(self@, other@),
    {
        fr_add(self, other)
    }

    /// The difference of two elements.
    pub fn sub(&self, other: &Scalar) -> (r: Scalar)
        ensures
            r@ == fsub(self@, other@),
    {
        fr_sub(self, other)
    }

    /// The additive inverse.
    pub fn neg(&self) -> (r: Scalar)
        ensures
            r@ == fneg(self@),
    {
        fr_neg(self)
    }

    /// The product of two elements.
    pub fn mul(&self, other: &Scalar) -> (r: Scalar)
        ensures
            r@ == fmul(self@, other@),
    {
        fr_mul(self, other)
    }

    /// The multiplicative inverse, which every element but zero has.
    pub fn inverse(&self) -> (r: Option<Scalar>)
        ensures
            r is None <==> self@ == 0,
            r is Some ==> r->0@ == finv(self@) && is_inverse(self@, r->0@),
    {
        fr_inverse(self)
    }

    /// This element raised to `exp`.
    pub fn pow(&self, exp: u128) -> (r: Scalar)
        ensures
            r@ == fpow(self@, exp as nat),
    {
        let lo: u64 = (exp & 0xffff_ffff_ffff_ffff) as u64;
        let hi: u64 = (exp >> 64) as u64;
        assert(exp == lo as u128 + (hi as u128) * 0x1_0000_0000_0000_0000) by (bit_vector)
            requires
                lo == (exp & 0xffff_ffff_ffff_ffff) as u64,
                hi == (exp >> 64) as u64,
        ;
        fr_pow(self, lo, hi)
    }
}

/// Whether four limbs stand for a number below the modulus.
fn below_modulus(limbs: &[u64; 4]) -> (r: bool)
    ensures
        r <==> limbs_value(limbs@) < modulus(),
{
    if limbs[3] != 0x73ed_a753_299d_7d48 {
        limbs[3] < 0x73ed_a753_299d_7d48
    } else if limbs[2] != 0x3339_d808_09a1_d805 {
        limbs[2] < 0x3339_d808_09a1_d805
    } else if limbs[1] != 0x53bd_a402_fffe_5bfe {
        limbs[1] < 0x53bd_a402_fffe_5bfe
    } else {
        limbs[0] < 0xffff_ffff_0000_0001
    }
}

/// `Field::add_assign` on `Fr`: the sum of the two elements modulo the
/// field's order.
#[verifier::external_body]
fn fr_add(a: &Scalar, b: &Scalar) -> (r: Scalar)
    ensures
        r@ == fadd(a@, b@),
{
    let mut x = Fr::from_repr(FrRepr(a.limbs)).unwrap();
    x.add_assign(&Fr::from_repr(FrRepr(b.limbs)).unwrap());
    Scalar { limbs: x.into_repr().0 }
}

/// `Field::sub_assign` on `Fr`: the difference of the two elements modulo the
/// field's order.
#[verifier::external_body]
fn fr_sub(a: &Scalar, b: &Scalar) -> (r: Scalar)
    ensures
        r@ == fsub(a@, b@),
{
    let mut x = Fr::from_repr(FrRepr(a.limbs)).unwrap();
    x.sub_assign(&Fr::from_repr(FrRepr(b.limbs)).unwrap());
    Scalar { limbs: x.into_repr().0 }
}

/// `Field::negate` on `Fr`: the element that added to `a` gives zero.
#[verifier::external_body]
fn fr_neg(a: &Scalar) -> (r: Scalar)
    ensures
        r@ == fneg(a@),
{
    let mut x = Fr::from_repr(FrRepr(a.limbs)).unwrap();
    x.negate();
    Scalar { limbs: x.into_repr().0 }
}

/// `Field::mul_assign` on `Fr`: the product of the two elements modulo the
/// field's order.
#[verifier::external_body]
fn fr_mul(a: &Scalar, b: &Scalar) -> (r: Scalar)
    ensures
        r@ == fmul(a@, b@),
{
    let mut x = Fr::from_repr(FrRepr(a.limbs)).unwrap();
    x.mul_assign(&Fr::from_repr(FrRepr(b.limbs)).unwrap());
    Scalar { limbs: x.into_repr().0 }
}

/// `Field::inverse` on `Fr`: nothing for zero; for any other element the one
/// element of the field whose product with it is one. That there is exactly
/// one rests on the field's order being prime.
#[verifier::external_body]
fn fr_inverse(a: &Scalar) -> (r: Option<Scalar>)
    ensures
        r is None <==> a@ == 0,
        r is Some ==> r->0@ == finv(a@) && is_inverse(a@, r->0@),
{
    match Fr::from_repr(FrRepr(a.limbs)).unwrap().inverse() {
        Some(x) => Some(Scalar { limbs: x.into_repr().0 }),
        None => None,
    }
}

/// `Field::pow` on `Fr`, with the exponent given as two limbs: the element
/// multiplied by itself as often as the exponent says, one for exponent zero.
#[verifier::external_body]
fn fr_pow(base: &Scalar, lo: u64, hi: u64) -> (r: Scalar)
    ensures
        r@ == fpow(base@, lo as nat + limb_base() * (hi as nat)),
{
    let x = Fr::from_repr(FrRepr(base.limbs)).unwrap().pow([lo, hi]);
    Scalar { limbs: x.into_repr().0 }
}

} // verus!
