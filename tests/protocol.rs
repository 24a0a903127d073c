use schnorr::{BigNat, KeyPair, Parameters, SchnorrProtocol};

fn value(n: &BigNat) -> u128 {
    let mut v: u128 = 0;
    for d in n.to_u32_digits().iter().rev() {
        v = (v << 32) | (*d as u128);
    }
    v
}

fn num(x: u64) -> BigNat {
    BigNat::from_u64(x)
}

fn small_params() -> Parameters {
    Parameters::new(num(4), num(23))
}

#[test]
fn test_schnorr_protocol() {
    let params = Parameters::new(BigNat::from_u64(4), BigNat::from_u64(23));
    let protocol = SchnorrProtocol::new(params.clone());
    let keypair = KeyPair::generate(&params);
    let (r, a) = protocol.prover_commit();
    let e = BigNat::from_u64(1);
    let z = protocol.prover_respond(&r, keypair.secret(), &e);
    assert!(protocol.verify(&a, &e, &z, keypair.public()));
}

#[test]
fn nonce_reuse_recovers_secret() {
    let params = small_params();
    let protocol = SchnorrProtocol::new(params.clone());
    let keypair = KeyPair::generate(&params);
    let (r, a) = protocol.prover_commit();
    let e1 = num(1);
    let z1 = protocol.prover_respond(&r, keypair.secret(), &e1);
    assert!(protocol.verify(&a, &e1, &z1, keypair.public()));
    let e2 = num(2);
    let z2 = protocol.prover_respond(&r, keypair.secret(), &e2);
    assert!(protocol.verify(&a, &e2, &z2, keypair.public()));
    // e1 - e2 = -1, its own inverse modulo 22
    let n: i128 = 22;
    let diff = value(&z1) as i128 - value(&z2) as i128;
    let recovered = (diff * -1).rem_euclid(n);
    assert_eq!(recovered as u128, value(keypair.secret()));
}

#[test]
fn key_from_seed_exact_values() {
    let params = small_params();
    let keypair = KeyPair::from_seed(&params, &[7]);
    assert_eq!(value(keypair.secret()), 8);
    assert_eq!(value(keypair.public()), 9);
}

#[test]
fn key_from_full_width_seed() {
    let params = small_params();
    let keypair = KeyPair::from_seed(&params, &[0xff; 32]);
    // (2^256 - 1) mod 21 + 1
    assert_eq!(value(keypair.secret()), 16);
}

#[test]
fn key_from_empty_seed_is_one() {
    let params = small_params();
    let keypair = KeyPair::from_seed(&params, &[]);
    assert_eq!(value(keypair.secret()), 1);
    assert_eq!(value(keypair.public()), 4);
}

#[test]
fn commit_from_seed_exact_values() {
    let protocol = SchnorrProtocol::new(small_params());
    let (r, a) = protocol.commit_from_seed(&[0x01, 0x00]);
    assert_eq!(value(&r), 5);
    assert_eq!(value(&a), 12);
}

#[test]
fn respond_exact_value() {
    let protocol = SchnorrProtocol::new(small_params());
    let z = protocol.prover_respond(&num(5), &num(8), &num(3));
    assert_eq!(value(&z), 7);
}

#[test]
fn respond_reduces_unbounded_challenge() {
    let protocol = SchnorrProtocol::new(small_params());
    let z = protocol.prover_respond(&num(5), &num(8), &num(1000));
    assert_eq!(value(&z), (5 + 8 * 1000) % 22);
}

#[test]
fn verify_accepts_honest_transcript() {
    let protocol = SchnorrProtocol::new(small_params());
    assert!(protocol.verify(&num(12), &num(3), &num(7), &num(9)));
}

#[test]
fn verify_rejects_wrong_secret() {
    let protocol = SchnorrProtocol::new(small_params());
    let z_wrong = protocol.prover_respond(&num(5), &num(9), &num(3));
    assert_eq!(value(&z_wrong), 10);
    assert!(!protocol.verify(&num(12), &num(3), &z_wrong, &num(9)));
}

#[test]
fn verify_rejects_tampered_commitment() {
    let protocol = SchnorrProtocol::new(small_params());
    assert!(!protocol.verify(&num(13), &num(3), &num(7), &num(9)));
}

#[test]
fn verify_is_deterministic() {
    let protocol = SchnorrProtocol::new(small_params());
    let first = protocol.verify(&num(12), &num(3), &num(7), &num(9));
    let second = protocol.verify(&num(12), &num(3), &num(7), &num(9));
    assert_eq!(first, second);
    let first = protocol.verify(&num(13), &num(3), &num(7), &num(9));
    let second = protocol.verify(&num(13), &num(3), &num(7), &num(9));
    assert_eq!(first, second);
}

#[test]
fn generated_keys_stay_in_range() {
    let params = small_params();
    for _ in 0..200 {
        let keypair = KeyPair::generate(&params);
        let s = value(keypair.secret());
        let y = value(keypair.public());
        assert!((1..=21).contains(&s));
        assert!((1..=22).contains(&y));
        let mut expected: u128 = 1;
        for _ in 0..s {
            expected = expected * 4 % 23;
        }
        assert_eq!(y, expected);
    }
}

#[test]
fn commitments_stay_in_range() {
    let protocol = SchnorrProtocol::new(small_params());
    for _ in 0..200 {
        let (r, a) = protocol.prover_commit();
        assert!((1..=21).contains(&value(&r)));
        assert!((1..=22).contains(&value(&a)));
    }
}

#[test]
fn smallest_modulus_gives_secret_one() {
    let params = Parameters::new(num(2), num(3));
    let keypair = KeyPair::generate(&params);
    assert_eq!(value(keypair.secret()), 1);
    assert_eq!(value(keypair.public()), 2);
}

#[test]
fn completeness_with_multi_digit_prime() {
    // 2^127 - 1 is prime
    let p = BigNat::from_u32_digits(vec![0xffff_ffff, 0xffff_ffff, 0xffff_ffff, 0x7fff_ffff]);
    let params = Parameters::new(num(3), p);
    let protocol = SchnorrProtocol::new(params.clone());
    let keypair = KeyPair::generate(&params);
    let (r, a) = protocol.prover_commit();
    for e in [0u64, 1, 2, 0xffff_ffff_ffff_ffff] {
        let e = num(e);
        let z = protocol.prover_respond(&r, keypair.secret(), &e);
        assert!(protocol.verify(&a, &e, &z, keypair.public()));
    }
}

#[test]
fn from_u64_digits() {
    assert_eq!(num((1u64 << 40) + 5).to_u32_digits(), vec![5, 256]);
    assert_eq!(value(&num(u64::MAX)), u64::MAX as u128);
    assert_eq!(value(&BigNat::from_u32_digits(vec![1, 2, 0])), (2u128 << 32) + 1);
}

#[test]
fn parameters_accessors() {
    let params = small_params();
    assert_eq!(value(params.generator()), 4);
    assert_eq!(value(params.modulus()), 23);
    let protocol = SchnorrProtocol::new(params);
    assert_eq!(value(protocol.params().modulus()), 23);
}
