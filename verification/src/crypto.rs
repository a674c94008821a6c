//! The cryptographic primitives that the library takes from outside, and the
//! plain values that pass between them and the library. What the outside
//! functions compute is named here and believed, not proved.

use vstd::prelude::*;

use itertools::Itertools;
use sha2::Digest;

use crate::types::Bytes32;

verus! {

/// A secret key of the curve secp256k1: thirty-two bytes.
#[derive(Debug, Clone, Copy, PartialEq, Eq, Hash)]
pub struct SecretKey(pub [u8; 32]);

/// A public key of the curve secp256k1: the two coordinates of a point,
/// thirty-two bytes each.
#[derive(Debug, Clone, Copy, PartialEq, Eq, Hash)]
pub struct PublicKey(pub [u8; 64]);

/// A recoverable signature: `r`, then `s` with the parity of the point's
/// `y` in its highest bit.
#[derive(Debug, Clone, Copy, PartialEq, Eq, Hash)]
pub struct Signature(pub [u8; 64]);

/// The SHA-256 digest of `data`: thirty-two bytes.
pub uninterp spec fn spec_sha256(data: Seq<u8>) -> Seq<u8>;

/// The public key that belongs to the secret key `secret`, if `secret` is
/// the encoding of a secret key.
pub uninterp spec fn spec_public_key(secret: Seq<u8>) -> Option<Seq<u8>>;

/// The deterministic ECDSA signature of `digest` under `secret`, as the
/// sixty-four bytes of `r` and `s` and the recovery byte, if there is one.
pub uninterp spec fn spec_sign(secret: Seq<u8>, digest: Seq<u8>) -> Option<(Seq<u8>, u8)>;

/// The public key that made `signature` over `digest`, given the recovery
/// byte, if there is one.
pub uninterp spec fn spec_recover(signature: Seq<u8>, recovery: u8, digest: Seq<u8>) -> Option<
    Seq<u8>,
>;

/// Computes the SHA-256 digest of `data` with `sha2::Sha256::digest`. The
/// digest is a function of the bytes hashed and nothing else; which function
/// it is rests on the `sha2` crate.
#[verifier::external_body]
pub(crate) fn sha256(data: &[u8]) -> (digest: [u8; 32])
    ensures
        digest@ == spec_sha256(data@),
{
    sha2::Sha256::digest(data).into()
}

/// Derives a public key with `k256::ecdsa::SigningKey::from_slice` and
/// `verifying_key`, and gives the point without the tag byte of its
/// uncompressed encoding. The result is a function of the secret's bytes;
/// nothing is claimed of which secrets are accepted.
#[verifier::external_body]
pub(crate) fn secp256k1_public_key(secret: &[u8; 32]) -> (r: Option<[u8; 64]>)
    ensures
        match spec_public_key(secret@) {
            Some(key) => r matches Some(k) && k@ == key,
            None => r is None,
        },
{
    let key = k256::ecdsa::SigningKey::from_slice(secret).ok()?;
    let point = key.verifying_key().to_encoded_point(false);
    point.as_bytes()[1..].try_into().ok()
}

/// Signs with `k256::ecdsa::SigningKey::sign_prehash_recoverable`, which
/// draws its nonce from the key and the digest alone. The result is a
/// function of the two byte strings; nothing is claimed of when there is
/// one.
#[verifier::external_body]
pub(crate) fn secp256k1_sign(secret: &[u8; 32], digest: &[u8; 32]) -> (r: Option<([u8; 64], u8)>)
    ensures
        match spec_sign(secret@, digest@) {
            Some((signature, recovery)) => r matches Some((s, b)) && s@ == signature && b
                == recovery,
            None => r is None,
        },
{
    let key = k256::ecdsa::SigningKey::from_slice(secret).ok()?;
    let (signature, recovery) = key.sign_prehash_recoverable(digest).ok()?;
    Some((signature.to_bytes().into(), recovery.to_byte()))
}

/// Recovers a public key with
/// `k256::ecdsa::VerifyingKey::recover_from_prehash`. The result is a
/// function of the arguments; nothing is claimed of when there is one.
#[verifier::external_body]
pub(crate) fn secp256k1_recover(signature: &[u8; 64], recovery: u8, digest: &[u8; 32]) -> (r:
    Option<[u8; 64]>)
    ensures
        match spec_recover(signature@, recovery, digest@) {
            Some(key) => r matches Some(k) && k@ == key,
            None => r is None,
        },
{
    let signature = k256::ecdsa::Signature::from_slice(signature).ok()?;
    let recovery = k256::ecdsa::RecoveryId::from_byte(recovery)?;
    let key = k256::ecdsa::VerifyingKey::recover_from_prehash(digest, &signature, recovery).ok()?;
    key.to_encoded_point(false).as_bytes()[1..].try_into().ok()
}

/// The values of `s` without those that occurred before: of equal values
/// the first stays, and the order of what stays is kept.
pub open spec fn spec_unique(s: Seq<[u8; 32]>) -> Seq<[u8; 32]>
    decreases s.len(),
{
    if s.len() == 0 {
        s
    } else {
        let before = spec_unique(s.drop_last());
        if before.contains(s.last()) {
            before
        } else {
            before.push(s.last())
        }
    }
}

/// Drops repeated values with `itertools::Itertools::unique`, which keeps
/// the first of equal items and the order of the items it keeps.
#[verifier::external_body]
pub(crate) fn unique(items: Vec<[u8; 32]>) -> (r: Vec<[u8; 32]>)
    ensures
        r@ == spec_unique(items@),
{
    items.into_iter().unique().collect()
}

impl PublicKey {
    /// The address of the key's owner: the digest of the key.
    pub open spec fn spec_address(self) -> Seq<u8> {
        spec_sha256(self.0@)
    }

    /// The address of the key's owner: the digest of the key.
    pub fn address(&self) -> (r: Bytes32)
        ensures
            r.0@ == self.spec_address(),
    {
        Bytes32(sha256(self.0.as_slice()))
    }
}

impl SecretKey {
    /// The public key that belongs to the secret key, if the bytes are a
    /// secret key.
    pub fn public_key(&self) -> (r: Option<PublicKey>)
        ensures
            match spec_public_key(self.0@) {
                Some(key) => r matches Some(k) && k.0@ == key,
                None => r is None,
            },
    {
        match secp256k1_public_key(&self.0) {
            Some(key) => Some(PublicKey(key)),
            None => None,
        }
    }
}

/// The signature made of `r` and `s` and of the recovery byte: the byte goes
/// into the highest bit of `s`. There is no such signature where that bit is
/// taken or the byte is neither 0 nor 1.
pub open spec fn spec_pack_signature(bytes: Seq<u8>, recovery: u8) -> Option<Seq<u8>> {
    if bytes.len() == 64 && recovery <= 1 && bytes[32] < 0x80 {
        Some(bytes.update(32, (bytes[32] + recovery * 0x80) as u8))
    } else {
        None
    }
}

/// The bytes `r` and `s` and the recovery byte that a signature is made of.
pub open spec fn spec_unpack_signature(signature: Seq<u8>) -> (Seq<u8>, u8) {
    (signature.update(32, (signature[32] % 0x80) as u8), signature[32] / 0x80)
}

/// Packs `r`, `s` and the recovery byte into a signature.
pub fn pack_signature(bytes: [u8; 64], recovery: u8) -> (r: Option<Signature>)
    ensures
        match spec_pack_signature(bytes@, recovery) {
            Some(s) => r matches Some(x) && x.0@ == s,
            None => r is None,
        },
{
    if recovery > 1 || bytes[32] >= 0x80 {
        return None;
    }
    let mut packed = bytes;
    packed[32] = bytes[32] + recovery * 0x80;
    Some(Signature(packed))
}

/// Unpacks a signature into `r`, `s` and the recovery byte.
pub fn unpack_signature(signature: &Signature) -> (r: ([u8; 64], u8))
    ensures
        (r.0@, r.1) == spec_unpack_signature(signature.0@),
{
    let mut bytes = signature.0;
    bytes[32] = signature.0[32] % 0x80;
    (bytes, signature.0[32] / 0x80)
}

/// Unpacking gives back what was packed.
pub proof fn lemma_unpack_pack(bytes: Seq<u8>, recovery: u8)
    requires
        spec_pack_signature(bytes, recovery) is Some,
    ensures
        spec_unpack_signature(spec_pack_signature(bytes, recovery).unwrap()) == (bytes, recovery),
{
    let packed = spec_pack_signature(bytes, recovery).unwrap();
    assert(packed.update(32, (packed[32] % 0x80) as u8) =~= bytes);
}

/// The signature of `digest` under `secret`, if the outside signer gives
/// one that can be packed.
pub open spec fn spec_signature(secret: Seq<u8>, digest: Seq<u8>) -> Option<Seq<u8>> {
    match spec_sign(secret, digest) {
        Some((bytes, recovery)) => spec_pack_signature(bytes, recovery),
        None => None,
    }
}

/// The address of the key that made `signature` over `digest`, if a key can
/// be recovered.
pub open spec fn spec_signer(signature: Seq<u8>, digest: Seq<u8>) -> Option<Seq<u8>> {
    let (bytes, recovery) = spec_unpack_signature(signature);
    match spec_recover(bytes, recovery, digest) {
        Some(key) => Some(spec_sha256(key)),
        None => None,
    }
}

impl Signature {
    /// Signs `digest` with `secret`.
    pub fn sign(secret: &SecretKey, digest: &Bytes32) -> (r: Option<Signature>)
        ensures
            match spec_signature(secret.0@, digest.0@) {
                Some(s) => r matches Some(x) && x.0@ == s,
                None => r is None,
            },
    {
        match secp256k1_sign(&secret.0, &digest.0) {
            Some((bytes, recovery)) => pack_signature(bytes, recovery),
            None => None,
        }
    }

    /// The address of the key that made the signature over `digest`.
    pub fn signer(&self, digest: &Bytes32) -> (r: Option<Bytes32>)
        ensures
            match spec_signer(self.0@, digest.0@) {
                Some(a) => r matches Some(x) && x.0@ == a,
                None => r is None,
            },
    {
        let (bytes, recovery) = unpack_signature(self);
        match secp256k1_recover(&bytes, recovery, &digest.0) {
            Some(key) => Some(PublicKey(key).address()),
            None => None,
        }
    }
}

} // verus!
