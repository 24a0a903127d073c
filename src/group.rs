//! The mathematical model of a Schnorr group and of the protocol's equations.
use vstd::arithmetic::power::pow;
use vstd::prelude::*;

verus! {

/// `n` is a prime number.
pub open spec fn is_prime(n: nat) -> bool {
    n >= 2 && forall|d: nat| 2 <= d < n ==> #[trigger] (n % d) != 0
}

/// A generator and a modulus, as numbers.
pub struct GroupModel {
    pub generator: nat,
    pub modulus: nat,
}

impl GroupModel {
    /// The group is non-degenerate: an odd prime modulus and a generator in
    /// `[2, modulus - 1]` whose order divides `modulus - 1`.
    pub open spec fn valid(self) -> bool {
        &&& self.modulus >= 3
        &&& is_prime(self.modulus)
        &&& 2 <= self.generator < self.modulus
        &&& pow(self.generator as int, (self.modulus - 1) as nat) % (self.modulus as int) == 1
    }

    /// `generator ^ x mod modulus`.
    pub open spec fn power(self, x: nat) -> nat {
        (pow(self.generator as int, x) % (self.modulus as int)) as nat
    }

    /// The exponent that a random number `seed` stands for: `seed` reduced
    /// into `[1, modulus - 2]`.
    pub open spec fn exponent_from(self, seed: nat) -> nat {
        seed % ((self.modulus - 2) as nat) + 1
    }

    /// The prover's response `(r + secret * e) mod (modulus - 1)`.
    pub open spec fn response(self, r: nat, secret: nat, e: nat) -> nat {
        (r + secret * e) % ((self.modulus - 1) as nat)
    }

    /// The verifier's equation `g^z == a * y^e (mod modulus)`.
    pub open spec fn accepts(self, a: nat, e: nat, z: nat, y: nat) -> bool {
        self.power(z) == (a * (pow(y as int, e) % (self.modulus as int))) % (self.modulus as int)
    }
}

} // verus!
