//! Signing with an sr25519 key pair, and checking such signatures.
//!
//! The cryptography is `sp_core`'s. A key pair is carried as that crate's own
//! value, which nothing here looks into.

use vstd::prelude::*;
use sp_core::crypto;
use crate::AccountId;

verus! {

/// A key pair of `sp_core`.
#[verifier::external_type_specification]
#[verifier::external_body]
pub struct ExPair(sp_core::sr25519::Pair);

/// An sr25519 signature: 64 bytes.
#[derive(Clone, Copy, Debug, PartialEq, Eq)]
pub struct KeypairSignature(pub [u8; 64]);

impl View for KeypairSignature {
    type V = Seq<u8>;

    open spec fn view(&self) -> Seq<u8> {
        self.0@
    }
}

/// A signature of one of the schemes that the chain accepts.
#[derive(Clone, Copy, Debug, PartialEq, Eq)]
pub enum MultiSignature {
    Ed25519([u8; 64]),
    Sr25519([u8; 64]),
    Ecdsa([u8; 65]),
}

#[derive(Clone, Copy, Debug, PartialEq, Eq, Structural)]
pub enum SigningError {
    /// The signature is of another scheme than sr25519.
    UnsupportedSignature,
}

impl SigningError {
    pub fn to_string(&self) -> (message: String)
        ensures
            message@ == "Unsupported signature type, expected Sr25519"@,
    {
        "Unsupported signature type, expected Sr25519".to_owned()
    }
}

/// Why secret material gave no key pair.
#[derive(Clone, Copy, Debug, PartialEq, Eq, Structural)]
pub enum SecretStringError {
    InvalidFormat,
    InvalidPhrase,
    InvalidPassword,
    /// The seed has the right length and is still no key.
    InvalidSeed,
    /// The seed has neither 32 nor 64 bytes.
    InvalidSeedLength,
    InvalidPath,
}

/// Whether `signature` is a good sr25519 signature of `message` under the
/// public key `public`, as `sp_core` judges it.
pub uninterp spec fn sr25519_signature_valid(
    signature: Seq<u8>,
    message: Seq<u8>,
    public: Seq<u8>,
) -> bool;

/// The longest message, in bytes, that can be signed or checked. The scheme
/// writes the length of the message down in 32 bits before it signs, and
/// `sp_core` panics on a message that is longer.
pub const MAX_MESSAGE_LEN: usize = 0xffff_ffff;

/// The public half of a key pair: the 32 bytes that `sp_core::Pair::public`
/// gives for it.
pub uninterp spec fn sr25519_public_key(pair: sp_core::sr25519::Pair) -> Seq<u8>;

/// The secret half of a key pair: the bytes that `sp_core::Pair::to_raw_vec`
/// gives for it.
pub uninterp spec fn sr25519_secret_key(pair: sp_core::sr25519::Pair) -> Seq<u8>;

/// The public key of the pair that `sp_core::Pair::from_seed_slice` makes
/// from `seed`; `None` where it makes none.
pub uninterp spec fn sr25519_seed_public_key(seed: Seq<u8>) -> Option<Seq<u8>>;

/// Whether the halves of a pair belong together: a pair made anew from the
/// secret half has the public half that this pair carries. A pair made from a
/// seed is such a pair. One put together by hand from a secret key and
/// another key's public half is not, and its signatures verify under
/// neither key.
pub open spec fn sr25519_pair_matched(pair: sp_core::sr25519::Pair) -> bool {
    sr25519_seed_public_key(sr25519_secret_key(pair)) == Some(sr25519_public_key(pair))
}

/// `Clone::clone` of a key pair. `sp_core` writes it by hand: it keeps the
/// public half and rebuilds the secret half from its own bytes, so both
/// halves of the copy are those of the pair.
pub assume_specification[ <sp_core::sr25519::Pair as Clone>::clone ](
    pair: &sp_core::sr25519::Pair,
) -> (copy: sp_core::sr25519::Pair)
    ensures
        sr25519_public_key(copy) == sr25519_public_key(*pair),
        sr25519_secret_key(copy) == sr25519_secret_key(*pair),
;

/// `sp_core::Pair::public` of an sr25519 pair, as its 32 bytes, which is
/// what [`sr25519_public_key`] names.
#[verifier::external_body]
fn pair_public(pair: &sp_core::sr25519::Pair) -> (key: [u8; 32])
    ensures
        key@ == sr25519_public_key(*pair),
{
    <sp_core::sr25519::Pair as sp_core::Pair>::public(pair).0
}

/// `sp_core::Pair::to_raw_vec` of an sr25519 pair: the bytes of its secret
/// half, which is what [`sr25519_secret_key`] names.
#[verifier::external_body]
fn pair_raw_secret(pair: &sp_core::sr25519::Pair) -> (secret: Vec<u8>)
    ensures
        secret@ == sr25519_secret_key(*pair),
{
    <sp_core::sr25519::Pair as sp_core::Pair>::to_raw_vec(pair)
}

/// `sp_core::Pair::sign` of an sr25519 pair, as the signature's 64 bytes.
/// The message may have at most [`MAX_MESSAGE_LEN`] bytes; the crate panics
/// on a longer one. Signing draws on randomness: two signatures of one message differ, so the
/// bytes have no name. What holds of every one of them: where the halves of
/// the pair belong together, the signature is good for the message under the
/// pair's public key.
#[verifier::external_body]
fn pair_sign(pair: &sp_core::sr25519::Pair, message: &[u8]) -> (signature: [u8; 64])
    requires
        message@.len() <= MAX_MESSAGE_LEN,
    ensures
        sr25519_pair_matched(*pair) ==> sr25519_signature_valid(
            signature@,
            message@,
            sr25519_public_key(*pair),
        ),
{
    <sp_core::sr25519::Pair as sp_core::Pair>::sign(pair, message).0
}

/// `sp_core::Pair::verify` for sr25519. The message may have at most
/// [`MAX_MESSAGE_LEN`] bytes; the crate can panic on a longer one. Its
/// verdict depends on the three byte strings alone and is named
/// [`sr25519_signature_valid`].
#[verifier::external_body]
fn sr25519_verify(signature: &[u8; 64], message: &[u8], public: &[u8; 32]) -> (valid: bool)
    requires
        message@.len() <= MAX_MESSAGE_LEN,
    ensures
        valid == sr25519_signature_valid(signature@, message@, public@),
{
    <sp_core::sr25519::Pair as sp_core::Pair>::verify(
        &sp_core::sr25519::Signature::from_raw(*signature),
        message,
        &sp_core::sr25519::Public::from_raw(*public),
    )
}

/// `sp_core::Pair::from_seed_slice` for sr25519. The crate takes a seed of 32
/// bytes as it is, checks one of 64 bytes for being a secret key, and refuses
/// every other length. The pair depends on the seed alone; its public key is
/// named [`sr25519_seed_public_key`]. The crate works the public half out
/// from the secret half, so the halves of the pair belong together.
#[verifier::external_body]
pub(crate) fn pair_from_seed_slice(seed: &[u8]) -> (made: Result<sp_core::sr25519::Pair, SecretStringError>)
    ensures
        match made {
            Ok(pair) => {
                &&& seed@.len() == 32 || seed@.len() == 64
                &&& sr25519_seed_public_key(seed@) == Some(sr25519_public_key(pair))
                &&& sr25519_pair_matched(pair)
            },
            Err(e) => {
                &&& sr25519_seed_public_key(seed@) is None
                &&& if seed@.len() == 64 {
                    e == SecretStringError::InvalidSeed
                } else {
                    seed@.len() != 32 && e == SecretStringError::InvalidSeedLength
                }
            },
        },
{
    match <sp_core::sr25519::Pair as sp_core::Pair>::from_seed_slice(seed) {
        Ok(pair) => Ok(pair),
        Err(crypto::SecretStringError::InvalidFormat(_)) => Err(SecretStringError::InvalidFormat),
        Err(crypto::SecretStringError::InvalidPhrase) => Err(SecretStringError::InvalidPhrase),
        Err(crypto::SecretStringError::InvalidPassword) => Err(SecretStringError::InvalidPassword),
        Err(crypto::SecretStringError::InvalidSeed) => Err(SecretStringError::InvalidSeed),
        Err(crypto::SecretStringError::InvalidSeedLength) => Err(SecretStringError::InvalidSeedLength),
        Err(crypto::SecretStringError::InvalidPath) => Err(SecretStringError::InvalidPath),
    }
}

/// Whether two keys are the same, byte for byte.
fn same_key(a: &[u8; 32], b: &[u8; 32]) -> (same: bool)
    ensures
        same == (a@ == b@),
{
    let mut i: usize = 0;
    while i < 32
        invariant
            i <= 32,
            forall|j: int| 0 <= j < i ==> a@[j] == b@[j],
        decreases 32 - i,
    {
        if a[i] != b[i] {
            return false;
        }
        i = i + 1;
    }
    assert(a@ =~= b@);
    true
}

/// A key pair together with the account that it signs for, which is the
/// pair's public key.
pub struct PairSigner {
    account_id: AccountId,
    signer: sp_core::sr25519::Pair,
}

impl PairSigner {
    #[verifier::type_invariant]
    spec fn account_is_public_key(self) -> bool {
        self.account_id@ == sr25519_public_key(self.signer)
    }

    /// The account that the signer signs for.
    pub closed spec fn account(&self) -> AccountId {
        self.account_id
    }

    /// The key pair that the signer was made from.
    pub closed spec fn pair(&self) -> sp_core::sr25519::Pair {
        self.signer
    }

    /// Whether the halves of the signer's pair belong together, which is
    /// what makes its signatures good.
    pub open spec fn matched(&self) -> bool {
        sr25519_pair_matched(self.pair())
    }

    /// A signer for the account whose identifier is the public key of
    /// `signer`.
    pub fn new(signer: sp_core::sr25519::Pair) -> (made: PairSigner)
        ensures
            made.pair() == signer,
            made.account()@ == sr25519_public_key(signer),
    {
        let account_id = AccountId(pair_public(&signer));
        PairSigner { account_id, signer }
    }

    pub fn signer(&self) -> (pair: &sp_core::sr25519::Pair)
        ensures
            *pair == self.pair(),
    {
        &self.signer
    }

    /// The account, which is the public key of the signer's pair.
    pub fn account_id(&self) -> (account: &AccountId)
        ensures
            *account == self.account(),
            account@ == sr25519_public_key(self.pair()),
    {
        proof {
            use_type_invariant(self);
        }
        &self.account_id
    }

    /// Tests whether the halves of the signer's pair belong together, by
    /// making a pair anew from the secret half and looking at its public key.
    pub fn is_matched(&self) -> (yes: bool)
        ensures
            yes == self.matched(),
    {
        proof {
            use_type_invariant(self);
        }
        let secret = pair_raw_secret(&self.signer);
        match pair_from_seed_slice(secret.as_slice()) {
            Ok(rebuilt) => {
                let key = pair_public(&rebuilt);
                same_key(&key, &self.account_id.0)
            },
            Err(_) => false,
        }
    }

    /// Signs `payload`, which may have at most [`MAX_MESSAGE_LEN`] bytes.
    /// The signature is always an sr25519 one, and it is
    /// good for `payload` under the signer's account where the halves of the
    /// signer's pair belong together.
    pub fn sign(&self, payload: &[u8]) -> (signature: MultiSignature)
        requires
            payload@.len() <= MAX_MESSAGE_LEN,
        ensures
            signature matches MultiSignature::Sr25519(bytes) && (self.matched()
                ==> sr25519_signature_valid(bytes@, payload@, self.account()@)),
    {
        proof {
            use_type_invariant(self);
        }
        MultiSignature::Sr25519(pair_sign(&self.signer, payload))
    }
}

impl Clone for PairSigner {
    /// A signer for the same account, with a copy of the pair.
    fn clone(&self) -> (copy: PairSigner)
        ensures
            copy.account() == self.account(),
            sr25519_public_key(copy.pair()) == sr25519_public_key(self.pair()),
            sr25519_secret_key(copy.pair()) == sr25519_secret_key(self.pair()),
    {
        proof {
            use_type_invariant(self);
        }
        PairSigner { account_id: self.account_id, signer: self.signer.clone() }
    }
}

/// Whether `signature` is a good signature of `message` by `account_id`.
/// The message may have at most [`MAX_MESSAGE_LEN`] bytes.
pub fn verify_signature(account_id: &AccountId, signature: &KeypairSignature, message: &[u8]) -> (valid:
    bool)
    requires
        message@.len() <= MAX_MESSAGE_LEN,
    ensures
        valid == sr25519_signature_valid(signature@, message@, account_id@),
{
    sr25519_verify(&signature.0, message, &account_id.0)
}

/// The sr25519 signature inside `signature`; a signature of another scheme
/// is refused.
pub fn keypair_signature(signature: MultiSignature) -> (found: Result<
    KeypairSignature,
    SigningError,
>)
    ensures
        match signature {
            MultiSignature::Sr25519(bytes) => found matches Ok(inner) && inner.0 == bytes,
            _ => found == Err::<KeypairSignature, SigningError>(SigningError::UnsupportedSignature),
        },
{
    match signature {
        MultiSignature::Sr25519(bytes) => Ok(KeypairSignature(bytes)),
        _ => Err(SigningError::UnsupportedSignature),
    }
}

/// Signs `message`, of at most [`MAX_MESSAGE_LEN`] bytes, with `signer`.
/// This always gives a signature, since the
/// signer signs with sr25519, and the signature is good for `message` under
/// the signer's account where the halves of the signer's pair belong
/// together, as they do in every signer made from a seed.
pub fn sign_message(signer: &PairSigner, message: &[u8]) -> (signature: Result<
    KeypairSignature,
    SigningError,
>)
    requires
        message@.len() <= MAX_MESSAGE_LEN,
    ensures
        signature matches Ok(found) && (signer.matched() ==> sr25519_signature_valid(
            found@,
            message@,
            signer.account()@,
        )),
{
    keypair_signature(signer.sign(message))
}

} // verus!
