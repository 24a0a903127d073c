//! What holds of the protocol across its operations.
use crate::group::{is_prime, GroupModel};
use crate::protocol::KeyPair;
use vstd::arithmetic::div_mod::{
    lemma_fundamental_div_mod, lemma_mod_multiples_basic, lemma_mul_mod_noop,
    lemma_mod_equivalence, lemma_mul_mod_noop_general, lemma_small_mod, lemma_sub_mod_noop,
};
use vstd::arithmetic::power::{lemma_pow_adds, lemma_pow_mod_noop, lemma_pow_multiplies, pow};
use vstd::prelude::*;

verus! {

proof fn lemma_pow_one(q: nat)
    ensures
        pow(1, q) == 1,
    decreases q,
{
    reveal(pow);
    if q > 0 {
        lemma_pow_one((q - 1) as nat);
    }
}

/// Euclid's lemma: a prime that divides `a * b`, with `a` in `[1, p - 1]`,
/// divides `b`.
proof fn lemma_prime_divides_factor(p: nat, a: nat, b: int)
    requires
        is_prime(p),
        1 <= a < p,
        (a * b) % (p as int) == 0,
    ensures
        b % (p as int) == 0,
    decreases a,
{
    if a > 1 {
        let pi = p as int;
        let ai = a as int;
        let q = pi / ai;
        let r = pi % ai;
        lemma_fundamental_div_mod(pi, ai);
        assert(p % a != 0);
        assert(0 < r < ai);
        lemma_fundamental_div_mod(ai * b, pi);
        let k = (ai * b) / pi;
        assert(ai * b == pi * k);
        assert(r * b == pi * (b - q * k)) by (nonlinear_arith)
            requires
                pi == ai * q + r,
                ai * b == pi * k,
        ;
        lemma_mod_multiples_basic(b - q * k, pi);
        assert((r * b) % pi == 0) by {
            assert(pi * (b - q * k) == (b - q * k) * pi) by (nonlinear_arith);
        }
        lemma_prime_divides_factor(p, r as nat, b);
    }
}

/// No power of a number in `[1, p - 1]` is divisible by the prime `p`.
proof fn lemma_pow_not_divisible(p: nat, g: nat, x: nat)
    requires
        is_prime(p),
        1 <= g < p,
    ensures
        pow(g as int, x) % (p as int) != 0,
    decreases x,
{
    reveal(pow);
    if x == 0 {
        lemma_small_mod(1, p);
    } else {
        lemma_pow_not_divisible(p, g, (x - 1) as nat);
        if pow(g as int, x) % (p as int) == 0 {
            lemma_prime_divides_factor(p, g, pow(g as int, (x - 1) as nat));
        }
    }
}

/// In a valid group every power of the generator lies in `[1, modulus - 1]`,
/// so in particular every public value does.
pub proof fn lemma_power_in_range(grp: GroupModel, x: nat)
    requires
        grp.valid(),
    ensures
        1 <= grp.power(x) <= grp.modulus - 1,
{
    lemma_pow_not_divisible(grp.modulus, grp.generator, x);
}

/// Completeness: in a valid group, the response of an honest prover with
/// nonce `r` and secret `secret` to any challenge `e` is accepted against the
/// commitment `g^r` and the public value `g^secret`.
pub proof fn lemma_completeness(grp: GroupModel, secret: nat, r: nat, e: nat)
    requires
        grp.valid(),
    ensures
        grp.accepts(grp.power(r), e, grp.response(r, secret, e), grp.power(secret)),
{
    let g = grp.generator as int;
    let m = grp.modulus as int;
    let n = (grp.modulus - 1) as nat;
    let t: nat = r + secret * e;
    let z = grp.response(r, secret, e);
    let q: nat = t / n;
    lemma_fundamental_div_mod(t as int, n as int);
    assert(t == n * q + z);
    // g^t == (g^n)^q * g^z, and g^n == 1 (mod m)
    lemma_pow_adds(g, n * q, z);
    lemma_pow_multiplies(g, n, q);
    lemma_pow_mod_noop(pow(g, n), q, m);
    lemma_pow_one(q);
    lemma_small_mod(1, grp.modulus);
    lemma_mul_mod_noop(pow(pow(g, n), q), pow(g, z), m);
    assert(pow(g, t) % m == pow(g, z) % m) by {
        lemma_mul_mod_noop_general(pow(pow(g, n), q), pow(g, z), m);
    }
    // g^t == g^r * (g^secret)^e
    lemma_pow_adds(g, r, secret * e);
    lemma_pow_multiplies(g, secret, e);
    lemma_pow_mod_noop(pow(g, secret), e, m);
    lemma_mul_mod_noop(pow(g, r), pow(pow(g, secret), e), m);
    let y = grp.power(secret);
    assert(pow(y as int, e) % m == pow(pow(g, secret), e) % m);
    lemma_mul_mod_noop_general(pow(g, r), pow(pow(g, secret), e), m);
}

/// Special soundness, as the nonce-reuse attack uses it: two responses made
/// with one nonce to distinct challenges `e1`, `e2` give the secret back as
/// `(z1 - z2) * inv mod (modulus - 1)`, where `inv` is an inverse of
/// `e1 - e2` modulo `modulus - 1`.
pub proof fn lemma_secret_extraction(
    grp: GroupModel,
    key: KeyPair,
    r: nat,
    e1: nat,
    e2: nat,
    inv: int,
)
    requires
        grp.modulus >= 3,
        key.is_key_of(grp),
        e1 != e2,
        ((e1 - e2) * inv) % ((grp.modulus - 1) as int) == 1,
    ensures
        ((grp.response(r, key.secret_value(), e1) - grp.response(r, key.secret_value(), e2)) * inv)
            % ((grp.modulus - 1) as int) == key.secret_value(),
{
    let s = key.secret_value() as int;
    let n = (grp.modulus - 1) as int;
    let t1 = r + s * e1;
    let t2 = r + s * e2;
    let z1 = grp.response(r, key.secret_value(), e1) as int;
    let z2 = grp.response(r, key.secret_value(), e2) as int;
    let d = e1 - e2;
    assert(z1 == t1 % n);
    assert(z2 == t2 % n);
    lemma_sub_mod_noop(t1, t2, n);
    assert(t1 - t2 == s * d) by (nonlinear_arith)
        requires
            t1 == r + s * e1,
            t2 == r + s * e2,
            d == e1 - e2,
    ;
    assert((z1 - z2) % n == (s * d) % n);
    lemma_mul_mod_noop_general(z1 - z2, inv, n);
    lemma_mul_mod_noop_general(s * d, inv, n);
    assert((s * d) * inv == s * (d * inv)) by (nonlinear_arith);
    lemma_mul_mod_noop_general(s, d * inv, n);
    lemma_small_mod(s as nat, n as nat);
}

/// Against a fixed commitment, challenge and public value, the verifier
/// accepts responses of one power `g^z` only: a response whose power differs
/// from that of an accepted one is rejected.
pub proof fn lemma_other_power_rejected(grp: GroupModel, a: nat, e: nat, y: nat, z: nat, z_other: nat)
    requires
        grp.accepts(a, e, z, y),
        grp.power(z_other) != grp.power(z),
    ensures
        !grp.accepts(a, e, z_other, y),
{
}

/// A response computed with a wrong secret `other`, whose power differs from
/// that of the honest response, is rejected against the honest commitment
/// and public value.
pub proof fn lemma_wrong_secret_rejected(grp: GroupModel, secret: nat, other: nat, r: nat, e: nat)
    requires
        grp.valid(),
        grp.power(grp.response(r, other, e)) != grp.power(grp.response(r, secret, e)),
    ensures
        !grp.accepts(grp.power(r), e, grp.response(r, other, e), grp.power(secret)),
{
    lemma_completeness(grp, secret, r, e);
    lemma_other_power_rejected(
        grp,
        grp.power(r),
        e,
        grp.power(secret),
        grp.response(r, secret, e),
        grp.response(r, other, e),
    );
}

/// In a valid group, the honest response is rejected against any commitment
/// other than `g^r` modulo the modulus.
pub proof fn lemma_tampered_commitment_rejected(
    grp: GroupModel,
    secret: nat,
    r: nat,
    e: nat,
    a_other: nat,
)
    requires
        grp.valid(),
        a_other % grp.modulus != grp.power(r),
    ensures
        !grp.accepts(a_other, e, grp.response(r, secret, e), grp.power(secret)),
{
    let m = grp.modulus as int;
    let a = grp.power(r) as int;
    let y = grp.power(secret);
    let big_y = pow(y as int, e) % m;
    lemma_completeness(grp, secret, r, e);
    lemma_power_in_range(grp, secret);
    lemma_pow_not_divisible(grp.modulus, y, e);
    if grp.accepts(a_other, e, grp.response(r, secret, e), y) {
        assert((a * big_y) % m == (a_other * big_y) % m);
        lemma_mod_equivalence(a * big_y, a_other * big_y, m);
        assert(big_y * (a - a_other) == a * big_y - a_other * big_y) by (nonlinear_arith);
        lemma_prime_divides_factor(grp.modulus, big_y as nat, a - a_other);
        lemma_mod_equivalence(a, a_other as int, m);
        lemma_small_mod(a as nat, grp.modulus);
    }
}

/// Two transcripts accepted against one commitment `a` and public value `y`,
/// with challenges `e1` and `e2`, satisfy `g^z1 * y^e2 == g^z2 * y^e1` modulo
/// the modulus: acceptance ties the two responses to `y` alone.
pub proof fn lemma_accepted_pair_relation(
    grp: GroupModel,
    a: nat,
    y: nat,
    e1: nat,
    z1: nat,
    e2: nat,
    z2: nat,
)
    requires
        grp.modulus >= 2,
        grp.accepts(a, e1, z1, y),
        grp.accepts(a, e2, z2, y),
    ensures
        (grp.power(z1) * (pow(y as int, e2) % (grp.modulus as int))) % (grp.modulus as int)
            == (grp.power(z2) * (pow(y as int, e1) % (grp.modulus as int))) % (grp.modulus as int),
{
    let m = grp.modulus as int;
    let y1 = pow(y as int, e1) % m;
    let y2 = pow(y as int, e2) % m;
    let ai = a as int;
    lemma_mul_mod_noop_general(ai * y1, y2, m);
    lemma_mul_mod_noop_general(ai * y2, y1, m);
    assert((ai * y1) * y2 == (ai * y2) * y1) by (nonlinear_arith);
}

} // verus!
