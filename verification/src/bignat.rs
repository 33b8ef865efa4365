//! Arbitrary-precision non-negative integers.
//!
//! `BigNat` wraps `candid::Nat` (a `num_bigint::BigUint`) together with a
//! ghost mathematical value.  Every arithmetic operation is a thin trusted
//! wrapper around the big-integer library; its contract states the exact
//! relation between the mathematical values, so all reasoning above this
//! module happens over `nat`.

use vstd::prelude::*;

verus! {

#[verifier::external_type_specification]
#[verifier::external_body]
pub struct ExNat(candid::Nat);

/// An arbitrary-precision non-negative integer amount.
pub struct BigNat {
    inner: candid::Nat,
    value: Ghost<nat>,
}

impl View for BigNat {
    type V = nat;

    closed spec fn view(&self) -> nat {
        self.value@
    }
}

/// Relies on `candid::Nat::from(0u64)`: the zero value.
#[verifier::external_body]
pub fn nat_zero() -> (r: BigNat)
    ensures
        r@ == 0,
{
    BigNat { inner: candid::Nat::from(0u64), value: Ghost(arbitrary()) }
}

/// Relies on `candid::Nat::from(u64)`: an exact conversion.
#[verifier::external_body]
pub fn nat_from_u64(v: u64) -> (r: BigNat)
    ensures
        r@ == v,
{
    BigNat { inner: candid::Nat::from(v), value: Ghost(arbitrary()) }
}

/// Relies on `candid::Nat::from(u128)`: an exact conversion.
#[verifier::external_body]
pub fn nat_from_u128(v: u128) -> (r: BigNat)
    ensures
        r@ == v,
{
    BigNat { inner: candid::Nat::from(v), value: Ghost(arbitrary()) }
}

/// Relies on `num_traits::ToPrimitive::to_u128` on `BigUint`: `Some`
/// exactly when the value fits in 128 bits, and then the same value.
#[verifier::external_body]
pub fn nat_to_u128(a: &BigNat) -> (r: Option<u128>)
    ensures
        r is Some <==> a@ <= u128::MAX,
        r matches Some(v) ==> v == a@,
{
    num_traits::ToPrimitive::to_u128(&a.inner.0)
}

/// Relies on `Clone` for `candid::Nat`: an equal value.
#[verifier::external_body]
pub fn nat_clone(a: &BigNat) -> (r: BigNat)
    ensures
        r@ == a@,
{
    BigNat { inner: a.inner.clone(), value: Ghost(arbitrary()) }
}

/// Relies on `Add` for `num_bigint::BigUint`: exact addition.
#[verifier::external_body]
pub fn nat_add(a: &BigNat, b: &BigNat) -> (r: BigNat)
    ensures
        r@ == a@ + b@,
{
    BigNat { inner: candid::Nat(&a.inner.0 + &b.inner.0), value: Ghost(arbitrary()) }
}

/// Relies on `num_traits::CheckedSub` for `BigUint`: `None` exactly on
/// underflow, otherwise the exact difference.
#[verifier::external_body]
pub fn nat_subtract(a: &BigNat, b: &BigNat) -> (r: Option<BigNat>)
    ensures
        r is Some <==> b@ <= a@,
        r matches Some(d) ==> d@ == a@ - b@,
{
    num_traits::CheckedSub::checked_sub(&a.inner.0, &b.inner.0)
        .map(|d| BigNat { inner: candid::Nat(d), value: Ghost(arbitrary()) })
}

/// Relies on `Mul` for `num_bigint::BigUint`: exact multiplication.
#[verifier::external_body]
pub fn nat_multiply(a: &BigNat, b: &BigNat) -> (r: BigNat)
    ensures
        r@ == a@ * b@,
{
    BigNat { inner: candid::Nat(&a.inner.0 * &b.inner.0), value: Ghost(arbitrary()) }
}

/// Relies on `num_traits::CheckedDiv` for `BigUint`: `None` exactly on a
/// zero divisor, otherwise the quotient truncated towards zero.
#[verifier::external_body]
pub fn nat_divide(a: &BigNat, b: &BigNat) -> (r: Option<BigNat>)
    ensures
        r is Some <==> b@ != 0,
        r matches Some(q) ==> q@ == a@ / b@,
{
    num_traits::CheckedDiv::checked_div(&a.inner.0, &b.inner.0)
        .map(|q| BigNat { inner: candid::Nat(q), value: Ghost(arbitrary()) })
}

/// Relies on `num_bigint::BigUint::sqrt`: the truncated principal square
/// root, i.e. the greatest `r` with `r * r <= a`.
#[verifier::external_body]
pub fn nat_sqrt(a: &BigNat) -> (r: BigNat)
    ensures
        r@ * r@ <= a@,
        a@ < (r@ + 1) * (r@ + 1),
{
    BigNat { inner: candid::Nat(a.inner.0.sqrt()), value: Ghost(arbitrary()) }
}

/// `10^k`.
pub open spec fn pow10(k: nat) -> nat
    decreases k,
{
    if k == 0 {
        1
    } else {
        10 * pow10((k - 1) as nat)
    }
}

pub proof fn lemma_pow10_pos(k: nat)
    ensures
        pow10(k) >= 1,
    decreases k,
{
    if k > 0 {
        lemma_pow10_pos((k - 1) as nat);
    }
}

/// `10^k` as a `BigNat`.
pub fn nat_pow10(k: u8) -> (r: BigNat)
    ensures
        r@ == pow10(k as nat),
{
    let mut r = nat_from_u64(1);
    let mut i: u8 = 0;
    while i < k
        invariant
            i <= k,
            r@ == pow10(i as nat),
        decreases k - i,
    {
        let ten = nat_from_u64(10);
        r = nat_multiply(&r, &ten);
        i = i + 1;
    }
    r
}

/// The value of `v`, given with `from` decimal places, expressed with `to`
/// decimal places: scaling up is exact, scaling down truncates.
pub open spec fn rescaled(v: nat, from: nat, to: nat) -> nat {
    if to >= from {
        v * pow10((to - from) as nat)
    } else {
        v / pow10((from - to) as nat)
    }
}

/// Re-express an amount held with `from_decimals` decimal places in
/// `to_decimals` decimal places, truncating when precision shrinks.
pub fn nat_to_decimal_precision(a: &BigNat, from_decimals: u8, to_decimals: u8) -> (r: BigNat)
    ensures
        r@ == rescaled(a@, from_decimals as nat, to_decimals as nat),
{
    if to_decimals >= from_decimals {
        let scale = nat_pow10(to_decimals - from_decimals);
        nat_multiply(a, &scale)
    } else {
        let scale = nat_pow10(from_decimals - to_decimals);
        proof {
            lemma_pow10_pos((from_decimals - to_decimals) as nat);
        }
        nat_divide(a, &scale).unwrap()
    }
}

/// Relies on `num_traits::Zero::is_zero` for `BigUint`.
#[verifier::external_body]
pub fn nat_is_zero(a: &BigNat) -> (r: bool)
    ensures
        r == (a@ == 0),
{
    num_traits::Zero::is_zero(&a.inner.0)
}

/// Relies on `PartialEq` for `num_bigint::BigUint`: value equality.
#[verifier::external_body]
pub fn nat_eq(a: &BigNat, b: &BigNat) -> (r: bool)
    ensures
        r == (a@ == b@),
{
    a.inner.0 == b.inner.0
}

/// Relies on `Ord` for `num_bigint::BigUint`: comparison by value.
#[verifier::external_body]
pub fn nat_lt(a: &BigNat, b: &BigNat) -> (r: bool)
    ensures
        r == (a@ < b@),
{
    a.inner.0 < b.inner.0
}

/// Relies on `Ord` for `num_bigint::BigUint`: comparison by value.
#[verifier::external_body]
pub fn nat_le(a: &BigNat, b: &BigNat) -> (r: bool)
    ensures
        r == (a@ <= b@),
{
    a.inner.0 <= b.inner.0
}

} // verus!
