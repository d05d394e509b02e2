//! Cryptographic primitives, called through trusted declarations.
//!
//! The digests and keys themselves are computed by outside libraries; the
//! contracts here give their results names and state only what those
//! libraries document.

use vstd::prelude::*;

verus! {

/// What the SHA-256 digest of a byte string is.
pub uninterp spec fn sha256_of(b: Seq<u8>) -> Seq<u8>;

/// Relies on bitcoin::hashes::sha256: a 32-byte digest that is a function of
/// the input bytes alone.
#[verifier::external_body]
pub fn sha256_digest(b: &Vec<u8>) -> (r: Vec<u8>)
    ensures
        r@ == sha256_of(b@),
        r@.len() == 32,
{
    let h = <bitcoin::hashes::sha256::Hash as bitcoin::hashes::Hash>::hash(b.as_slice());
    <bitcoin::hashes::sha256::Hash as bitcoin::hashes::Hash>::to_byte_array(h).to_vec()
}

/// The serialized (compressed, 33-byte) public key derived from a broadcast
/// secret key's 32 bytes.
pub uninterp spec fn broadcast_public_key_of(sk: Seq<u8>) -> Seq<u8>;

/// Whether 32 bytes are a valid secp256k1 secret key, as
/// secp256k1::SecretKey::from_slice decides it.
pub uninterp spec fn valid_broadcast_secret_key(sk: Seq<u8>) -> bool;

/// Relies on secp256k1::Secp256k1::generate_keypair: a freshly sampled valid
/// keypair whose serialized public key is the one derived from its secret
/// key. Which keypair comes back depends on the random generator.
#[verifier::external_body]
pub fn generate_broadcast_keypair() -> (r: (Vec<u8>, Vec<u8>))
    ensures
        r.0@.len() == 32,
        r.1@.len() == 33,
        valid_broadcast_secret_key(r.0@),
        r.1@ == broadcast_public_key_of(r.0@),
{
    let secp = secp256k1::Secp256k1::new();
    let (sk, pk) = secp.generate_keypair(&mut rand::thread_rng());
    (sk.secret_bytes().to_vec(), pk.serialize().to_vec())
}

/// Relies on secp256k1::SecretKey::from_slice, which succeeds exactly on
/// valid secret keys, and on secp256k1::PublicKey::from_secret_key, whose
/// serialized result is a function of the secret key alone.
#[verifier::external_body]
pub fn derive_broadcast_public_key(sk: &Vec<u8>) -> (r: Option<Vec<u8>>)
    ensures
        r is Some <==> valid_broadcast_secret_key(sk@),
        match r {
            Some(pk) => pk@ == broadcast_public_key_of(sk@) && pk@.len() == 33,
            None => true,
        },
{
    match secp256k1::SecretKey::from_slice(sk) {
        Ok(key) => {
            let secp = secp256k1::Secp256k1::new();
            Some(secp256k1::PublicKey::from_secret_key(&secp, &key).serialize().to_vec())
        },
        Err(_) => None,
    }
}

/// Relies on rcgen::KeyPair::generate and
/// rcgen::CertificateParams::self_signed (ring backend): a fresh self-signed
/// certificate for the given subject, in DER form, with the keypair's DER
/// encoding. The outputs are fresh key material; nothing more is promised of
/// them.
#[verifier::external_body]
pub fn rcgen_self_signed(common_name: &String) -> (r: Option<(Vec<u8>, Vec<u8>)>)
    ensures
        r matches Some(c) ==> c.0@.len() > 0 && c.1@.len() > 0,
{
    let keypair = match rcgen::KeyPair::generate() {
        Ok(k) => k,
        Err(_) => return None,
    };
    let key_der = keypair.serialize_der();
    let mut params = match rcgen::CertificateParams::new(vec![common_name.clone()]) {
        Ok(p) => p,
        Err(_) => return None,
    };
    params.is_ca = rcgen::IsCa::NoCa;
    params.distinguished_name.push(rcgen::DnType::CommonName, common_name.clone());
    match params.self_signed(&keypair) {
        Ok(cert) => Some((cert.der().to_vec(), key_der)),
        Err(_) => None,
    }
}

} // verus!
