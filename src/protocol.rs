//! Group parameters, key pairs and the three moves of the protocol.
use crate::bignat::{bytes_be_value, BigNat};
use crate::group::GroupModel;
use crate::laws::lemma_power_in_range;
use vstd::prelude::*;

verus! {

/// Relies on `rand::random`: 32 bytes from the thread-local secure generator.
#[verifier::external_body]
fn random_seed() -> (r: Vec<u8>)
    ensures
        r@.len() == 32,
{
    rand::random::<[u8; 32]>().to_vec()
}

/// The public parameters: a generator and a prime modulus.
#[derive(Clone, Debug)]
pub struct Parameters {
    g: BigNat,
    p: BigNat,
}

impl View for Parameters {
    type V = GroupModel;

    closed spec fn view(&self) -> GroupModel {
        GroupModel { generator: self.g@, modulus: self.p@ }
    }
}

impl Parameters {
    /// Parameters with generator `g` and modulus `p`, taken as they are.
    pub fn new(g: BigNat, p: BigNat) -> (r: Parameters)
        ensures
            r@ == (GroupModel { generator: g@, modulus: p@ }),
    {
        Parameters { g, p }
    }

    /// The generator.
    pub fn generator(&self) -> (r: &BigNat)
        ensures
            r@ == self@.generator,
    {
        &self.g
    }

    /// The modulus.
    pub fn modulus(&self) -> (r: &BigNat)
        ensures
            r@ == self@.modulus,
    {
        &self.p
    }

    /// `g ^ x mod p`.
    fn power(&self, x: &BigNat) -> (r: BigNat)
        requires
            self@.modulus >= 2,
        ensures
            r@ == self@.power(x@),
    {
        self.g.mod_pow(x, &self.p)
    }

    /// The exponent in `[1, p - 2]` that the random bytes `seed` stand for.
    fn exponent_from(&self, seed: &[u8]) -> (r: BigNat)
        requires
            self@.modulus >= 3,
        ensures
            r@ == self@.exponent_from(bytes_be_value(seed@)),
            1 <= r@ <= self@.modulus - 2,
    {
        let two = BigNat::from_u64(2);
        let one = BigNat::from_u64(1);
        let range = self.p.minus(&two);
        let x = BigNat::from_bytes_be(seed);
        let reduced = x.modulo(&range);
        reduced.plus(&one)
    }
}

/// A secret exponent and the public value `g ^ secret mod p`.
pub struct KeyPair {
    secret: BigNat,
    public: BigNat,
}

impl KeyPair {
    /// The secret exponent, as a number.
    pub closed spec fn secret_value(&self) -> nat {
        self.secret@
    }

    /// The public value, as a number.
    pub closed spec fn public_value(&self) -> nat {
        self.public@
    }

    /// This pair is a key of the group `grp`: its secret lies in
    /// `[1, modulus - 2]` and its public value is `g ^ secret mod p`.
    pub open spec fn is_key_of(&self, grp: GroupModel) -> bool {
        &&& 1 <= self.secret_value() <= grp.modulus - 2
        &&& self.public_value() == grp.power(self.secret_value())
    }

    /// The key pair whose secret the random bytes `seed` stand for.
    pub fn from_seed(params: &Parameters, seed: &[u8]) -> (r: KeyPair)
        requires
            params@.modulus >= 3,
        ensures
            r.secret_value() == params@.exponent_from(bytes_be_value(seed@)),
            r.is_key_of(params@),
    {
        let secret = params.exponent_from(seed);
        let public = params.power(&secret);
        KeyPair { secret, public }
    }

    /// A fresh key pair, its secret drawn from a secure random source; in a
    /// valid group its public value lies in `[1, modulus - 1]`.
    pub fn generate(params: &Parameters) -> (r: KeyPair)
        requires
            params@.modulus >= 3,
        ensures
            r.is_key_of(params@),
            params@.valid() ==> 1 <= r.public_value() <= params@.modulus - 1,
    {
        let seed = random_seed();
        let r = KeyPair::from_seed(params, seed.as_slice());
        proof {
            if params@.valid() {
                lemma_power_in_range(params@, r.secret_value());
            }
        }
        r
    }

    /// The secret exponent.
    pub fn secret(&self) -> (r: &BigNat)
        ensures
            r@ == self.secret_value(),
    {
        &self.secret
    }

    /// The public value.
    pub fn public(&self) -> (r: &BigNat)
        ensures
            r@ == self.public_value(),
    {
        &self.public
    }
}

/// The protocol over fixed parameters: commit, respond and verify.
pub struct SchnorrProtocol {
    params: Parameters,
}

impl View for SchnorrProtocol {
    type V = GroupModel;

    closed spec fn view(&self) -> GroupModel {
        self.params@
    }
}

impl SchnorrProtocol {
    /// The protocol over `params`.
    pub fn new(params: Parameters) -> (r: SchnorrProtocol)
        ensures
            r@ == params@,
    {
        SchnorrProtocol { params }
    }

    /// The parameters.
    pub fn params(&self) -> (r: &Parameters)
        ensures
            r@ == self@,
    {
        &self.params
    }

    /// The prover's first move with the nonce that the random bytes `seed`
    /// stand for: the nonce `r` and the commitment `a = g ^ r mod p`.
    pub fn commit_from_seed(&self, seed: &[u8]) -> (r: (BigNat, BigNat))
        requires
            self@.modulus >= 3,
        ensures
            r.0@ == self@.exponent_from(bytes_be_value(seed@)),
            1 <= r.0@ <= self@.modulus - 2,
            r.1@ == self@.power(r.0@),
    {
        let nonce = self.params.exponent_from(seed);
        let a = self.params.power(&nonce);
        (nonce, a)
    }

    /// The prover's first move: a fresh nonce `r` in `[1, p - 2]` from a
    /// secure random source, and the commitment `a = g ^ r mod p`.
    pub fn prover_commit(&self) -> (r: (BigNat, BigNat))
        requires
            self@.modulus >= 3,
        ensures
            1 <= r.0@ <= self@.modulus - 2,
            r.1@ == self@.power(r.0@),
    {
        let seed = random_seed();
        self.commit_from_seed(seed.as_slice())
    }

    /// The prover's answer to challenge `e`: `(r + secret * e) mod (p - 1)`.
    pub fn prover_respond(&self, r: &BigNat, secret: &BigNat, e: &BigNat) -> (z: BigNat)
        requires
            self@.modulus >= 2,
        ensures
            z@ == self@.response(r@, secret@, e@),
    {
        let one = BigNat::from_u64(1);
        let order = self.params.p.minus(&one);
        let se = secret.times(e);
        let sum = r.plus(&se);
        sum.modulo(&order)
    }

    /// The verifier's check `g ^ z == a * y ^ e (mod p)`, for commitment `a`,
    /// challenge `e`, response `z` and public value `y`.
    pub fn verify(&self, a: &BigNat, e: &BigNat, z: &BigNat, public_key: &BigNat) -> (ok: bool)
        requires
            self@.modulus >= 2,
        ensures
            ok == self@.accepts(a@, e@, z@, public_key@),
    {
        let lhs = self.params.power(z);
        let y_to_e = public_key.mod_pow(e, &self.params.p);
        let rhs = a.times(&y_to_e).modulo(&self.params.p);
        lhs.equals(&rhs)
    }
}

} // verus!
