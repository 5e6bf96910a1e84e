use sp_core::Pair;
use subtensor_client::sign::{
    keypair_signature, sign_message, verify_signature, KeypairSignature, MultiSignature,
    PairSigner, SecretStringError, SigningError,
};
use subtensor_client::wallet::signer_from_seed;
use subtensor_client::AccountId;

const ALICE_SEED: [u8; 32] = [
    0xe5, 0xbe, 0x9a, 0x50, 0x92, 0xb8, 0x1b, 0xca, 0x64, 0xbe, 0x81, 0xd2, 0x12, 0xe7, 0xf2, 0xf9,
    0xeb, 0xa1, 0x83, 0xbb, 0x7a, 0x90, 0x95, 0x4f, 0x7b, 0x76, 0x36, 0x1f, 0x6e, 0xdb, 0x5c, 0x0a,
];

const ALICE_PUBLIC: [u8; 32] = [
    0xd4, 0x35, 0x93, 0xc7, 0x15, 0xfd, 0xd3, 0x1c, 0x61, 0x14, 0x1a, 0xbd, 0x04, 0xa9, 0x9f, 0xd6,
    0x82, 0x2c, 0x85, 0x58, 0x85, 0x4c, 0xcd, 0xe3, 0x9a, 0x56, 0x84, 0xe7, 0xa5, 0x6d, 0xa2, 0x7d,
];

#[test]
fn signer_from_seed_gives_the_account_of_the_seed() {
    let signer = signer_from_seed(&ALICE_SEED).ok().unwrap();
    assert_eq!(*signer.account_id(), AccountId(ALICE_PUBLIC));
    assert_eq!(signer.signer().public().0, ALICE_PUBLIC);
}

#[test]
fn pair_signer_new_takes_the_public_key() {
    let pair = sp_core::sr25519::Pair::from_seed(&[7u8; 32]);
    let public = pair.public().0;
    let signer = PairSigner::new(pair);
    assert_eq!(signer.account_id().0, public);
}

#[test]
fn signer_from_seed_lengths() {
    assert_eq!(signer_from_seed(&[]).err(), Some(SecretStringError::InvalidSeedLength));
    assert_eq!(signer_from_seed(&[1u8; 31]).err(), Some(SecretStringError::InvalidSeedLength));
    assert_eq!(signer_from_seed(&[1u8; 33]).err(), Some(SecretStringError::InvalidSeedLength));
    assert_eq!(signer_from_seed(&[1u8; 65]).err(), Some(SecretStringError::InvalidSeedLength));
    assert!(signer_from_seed(&[0u8; 32]).is_ok());
    assert!(signer_from_seed(&[0xffu8; 32]).is_ok());
}

#[test]
fn signer_from_long_seed() {
    let pair = sp_core::sr25519::Pair::from_seed(&ALICE_SEED);
    let raw = pair.to_raw_vec();
    assert_eq!(raw.len(), 64);
    let signer = signer_from_seed(&raw).ok().unwrap();
    assert_eq!(signer.account_id().0, ALICE_PUBLIC);
    // 64 bytes that are no key.
    assert_eq!(signer_from_seed(&[0xffu8; 64]).err(), Some(SecretStringError::InvalidSeed));
}

#[test]
fn signature_verifies_for_signer_and_message() {
    let signer = signer_from_seed(&ALICE_SEED).ok().unwrap();
    let signature = sign_message(&signer, b"set weights").unwrap();
    assert!(verify_signature(signer.account_id(), &signature, b"set weights"));
}

#[test]
fn signature_fails_for_other_message_or_account() {
    let signer = signer_from_seed(&ALICE_SEED).ok().unwrap();
    let other = signer_from_seed(&[9u8; 32]).ok().unwrap();
    let signature = sign_message(&signer, b"set weights").unwrap();
    assert!(!verify_signature(signer.account_id(), &signature, b"set weight"));
    assert!(!verify_signature(other.account_id(), &signature, b"set weights"));
    let mut tampered = signature;
    tampered.0[3] ^= 1;
    assert!(!verify_signature(signer.account_id(), &tampered, b"set weights"));
    assert!(!verify_signature(signer.account_id(), &KeypairSignature([0; 64]), b"set weights"));
}

#[test]
fn verify_accepts_signature_made_by_the_crate_itself() {
    let pair = sp_core::sr25519::Pair::from_seed(&ALICE_SEED);
    let signature = pair.sign(b"hello");
    assert!(verify_signature(&AccountId(ALICE_PUBLIC), &KeypairSignature(signature.0), b"hello"));
}

#[test]
fn signer_signs_with_sr25519() {
    let signer = signer_from_seed(&ALICE_SEED).ok().unwrap();
    match signer.sign(b"payload") {
        MultiSignature::Sr25519(bytes) => {
            assert!(verify_signature(
                signer.account_id(),
                &KeypairSignature(bytes),
                b"payload"
            ));
        }
        other => panic!("unexpected scheme: {:?}", other),
    }
}

#[test]
fn keypair_signature_takes_sr25519_only() {
    assert_eq!(
        keypair_signature(MultiSignature::Sr25519([5; 64])),
        Ok(KeypairSignature([5; 64]))
    );
    assert_eq!(
        keypair_signature(MultiSignature::Ed25519([5; 64])),
        Err(SigningError::UnsupportedSignature)
    );
    assert_eq!(
        keypair_signature(MultiSignature::Ecdsa([5; 65])),
        Err(SigningError::UnsupportedSignature)
    );
}

#[test]
fn signing_error_message() {
    assert_eq!(
        SigningError::UnsupportedSignature.to_string(),
        "Unsupported signature type, expected Sr25519"
    );
}

#[test]
fn signer_from_seed_has_matching_halves() {
    assert!(signer_from_seed(&ALICE_SEED).ok().unwrap().is_matched());
    assert!(signer_from_seed(&[0u8; 32]).ok().unwrap().is_matched());
    let raw = sp_core::sr25519::Pair::from_seed(&[3u8; 32]).to_raw_vec();
    assert!(signer_from_seed(&raw).ok().unwrap().is_matched());
    assert!(PairSigner::new(sp_core::sr25519::Pair::from_seed(&[5u8; 32])).is_matched());
}

#[test]
fn same_seed_gives_same_account() {
    let first = signer_from_seed(&[11u8; 32]).ok().unwrap();
    let second = signer_from_seed(&[11u8; 32]).ok().unwrap();
    let other = signer_from_seed(&[12u8; 32]).ok().unwrap();
    assert_eq!(first.account_id(), second.account_id());
    assert_ne!(first.account_id(), other.account_id());
}

#[test]
fn cloned_signer_signs_for_the_same_account() {
    let signer = signer_from_seed(&ALICE_SEED).ok().unwrap();
    let copy = signer.clone();
    assert_eq!(copy.account_id(), signer.account_id());
    assert!(copy.is_matched());
    let signature = sign_message(&copy, b"from the copy").unwrap();
    assert!(verify_signature(signer.account_id(), &signature, b"from the copy"));
}
