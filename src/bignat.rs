//! Arbitrary-precision natural numbers.
//!
//! A `BigNat` holds its value as base-2^32 digits, least significant first,
//! and is viewed as the `nat` those digits denote. The arithmetic itself is
//! done by `num_bigint::BigUint`: each operation below hands the digits to
//! `BigUint::new`, performs one `BigUint` operation, and takes the digits of
//! the result back with `BigUint::to_u32_digits`.
use num_bigint::BigUint;
use vstd::arithmetic::power::pow;
use vstd::prelude::*;

verus! {

/// The value of base-2^32 digits, least significant first.
pub open spec fn limbs_value(s: Seq<u32>) -> nat
    decreases s.len(),
{
    if s.len() == 0 {
        0
    } else {
        s[0] as nat + 0x1_0000_0000 * limbs_value(s.subrange(1, s.len() as int))
    }
}

/// The value of bytes read as a big-endian number.
pub open spec fn bytes_be_value(s: Seq<u8>) -> nat
    decreases s.len(),
{
    if s.len() == 0 {
        0
    } else {
        bytes_be_value(s.drop_last()) * 256 + s.last() as nat
    }
}

/// A natural number of any size.
#[derive(Clone, Debug)]
pub struct BigNat {
    limbs: Vec<u32>,
}

impl View for BigNat {
    type V = nat;

    closed spec fn view(&self) -> nat {
        limbs_value(self.limbs@)
    }
}

impl BigNat {
    /// The number `x`.
    pub fn from_u64(x: u64) -> (r: BigNat)
        ensures
            r@ == x,
    {
        let lo: u32 = (x % 0x1_0000_0000) as u32;
        let hi: u32 = (x / 0x1_0000_0000) as u32;
        let limbs = vec![lo, hi];
        proof {
            let s = limbs@;
            assert(s.subrange(1, 2).subrange(1, 1) =~= Seq::<u32>::empty());
            assert(limbs_value(s.subrange(1, 2)) == hi as nat) by {
                reveal_with_fuel(limbs_value, 2);
            }
            assert(limbs_value(s) == lo as nat + 0x1_0000_0000 * (hi as nat));
        }
        BigNat { limbs }
    }

    /// The number whose base-2^32 digits, least significant first, are `digits`.
    pub fn from_u32_digits(digits: Vec<u32>) -> (r: BigNat)
        ensures
            r@ == limbs_value(digits@),
    {
        BigNat { limbs: digits }
    }

    /// Base-2^32 digits of this number, least significant first.
    pub fn to_u32_digits(&self) -> (r: Vec<u32>)
        ensures
            limbs_value(r@) == self@,
    {
        let mut r: Vec<u32> = Vec::new();
        let mut i: usize = 0;
        while i < self.limbs.len()
            invariant
                i <= self.limbs@.len(),
                r@ == self.limbs@.subrange(0, i as int),
            decreases self.limbs@.len() - i,
        {
            r.push(self.limbs[i]);
            i = i + 1;
        }
        assert(r@ =~= self.limbs@);
        r
    }

    /// Relies on `BigUint::from_bytes_be`: the number that `bytes` spell in
    /// big-endian order.
    #[verifier::external_body]
    pub(crate) fn from_bytes_be(bytes: &[u8]) -> (r: BigNat)
        ensures
            r@ == bytes_be_value(bytes@),
    {
        BigNat { limbs: BigUint::from_bytes_be(bytes).to_u32_digits() }
    }

    /// Relies on `Add` for `BigUint`: the exact sum.
    #[verifier::external_body]
    pub(crate) fn plus(&self, o: &BigNat) -> (r: BigNat)
        ensures
            r@ == self@ + o@,
    {
        let s = BigUint::new(self.limbs.clone()) + BigUint::new(o.limbs.clone());
        BigNat { limbs: s.to_u32_digits() }
    }

    /// Relies on `Sub` for `BigUint`: the exact difference, which panics below zero.
    #[verifier::external_body]
    pub(crate) fn minus(&self, o: &BigNat) -> (r: BigNat)
        requires
            self@ >= o@,
        ensures
            r@ == self@ - o@,
    {
        let d = BigUint::new(self.limbs.clone()) - BigUint::new(o.limbs.clone());
        BigNat { limbs: d.to_u32_digits() }
    }

    /// Relies on `Mul` for `BigUint`: the exact product.
    #[verifier::external_body]
    pub(crate) fn times(&self, o: &BigNat) -> (r: BigNat)
        ensures
            r@ == self@ * o@,
    {
        let p = BigUint::new(self.limbs.clone()) * BigUint::new(o.limbs.clone());
        BigNat { limbs: p.to_u32_digits() }
    }

    /// Relies on `Rem` for `BigUint`: the remainder, which panics for a zero divisor.
    #[verifier::external_body]
    pub(crate) fn modulo(&self, m: &BigNat) -> (r: BigNat)
        requires
            m@ > 0,
        ensures
            r@ == self@ % m@,
    {
        let q = BigUint::new(self.limbs.clone()) % BigUint::new(m.limbs.clone());
        BigNat { limbs: q.to_u32_digits() }
    }

    /// Relies on `BigUint::modpow`: `(self ^ e) % m`, which panics for a zero modulus.
    #[verifier::external_body]
    pub(crate) fn mod_pow(&self, e: &BigNat, m: &BigNat) -> (r: BigNat)
        requires
            m@ > 1,
        ensures
            r@ == pow(self@ as int, e@) % (m@ as int),
    {
        let b = BigUint::new(self.limbs.clone());
        let r = b.modpow(&BigUint::new(e.limbs.clone()), &BigUint::new(m.limbs.clone()));
        BigNat { limbs: r.to_u32_digits() }
    }

    /// Relies on `PartialEq` for `BigUint`: equality of values.
    #[verifier::external_body]
    pub(crate) fn equals(&self, o: &BigNat) -> (r: bool)
        ensures
            r == (self@ == o@),
    {
        BigUint::new(self.limbs.clone()) == BigUint::new(o.limbs.clone())
    }
}

} // verus!
