//! Identity material: a self-signed TLS certificate and key for a peer's
//! display name, with the name sanitized into a DNS-safe common name.

use vstd::prelude::*;
use vstd::string::{StringSliceAdditionalSpecFns, StrSliceExecFns};
use vstd::utf8::{
    decode_utf8, is_leading_byte_width_1, pop_first_scalar, valid_first_scalar, valid_utf8,
};

use crate::codec::utf8_to_string;
use crate::crypto::rcgen_self_signed;

verus! {

/// A byte acceptable in a DNS label: a lowercase letter, a digit, or a
/// hyphen.
pub open spec fn spec_dns_safe_byte(b: u8) -> bool {
    (97 <= b <= 122) || (48 <= b <= 57) || b == 45
}

/// How one byte of a name is sanitized: lowercase letters, digits and
/// hyphens stay; uppercase letters are lowered; everything else becomes a
/// hyphen.
pub open spec fn spec_sanitize_byte(b: u8) -> u8 {
    if 97 <= b <= 122 || 48 <= b <= 57 || b == 45 {
        b
    } else if 65 <= b <= 90 {
        (b + 32) as u8
    } else {
        45
    }
}

pub open spec fn spec_sanitized(s: Seq<u8>) -> Seq<u8> {
    s.map_values(|b: u8| spec_sanitize_byte(b))
}

/// A sequence of bytes below 0x80 is valid UTF-8, one character per byte.
proof fn lemma_ascii_bytes_utf8(s: Seq<u8>)
    requires
        forall|i: int| 0 <= i < s.len() ==> (#[trigger] s[i]) < 0x80,
    ensures
        valid_utf8(s),
        decode_utf8(s).len() == s.len(),
        forall|i: int| 0 <= i < s.len() ==> (#[trigger] decode_utf8(s)[i]) == s[i] as char,
    decreases s.len(),
{
    if s.len() > 0 {
        let b0 = s[0];
        assert(is_leading_byte_width_1(b0)) by (bit_vector)
            requires
                b0 < 0x80,
        ;
        assert(valid_first_scalar(s));
        assert(pop_first_scalar(s) =~= s.drop_first());
        assert(forall|i: int|
            0 <= i < s.drop_first().len() ==> (#[trigger] s.drop_first()[i]) < 0x80);
        lemma_ascii_bytes_utf8(s.drop_first());
        assert(valid_utf8(s));
        assert forall|i: int|
            0 <= i < s.len() implies (#[trigger] decode_utf8(s)[i]) == s[i] as char by {
            if i > 0 {
                assert(decode_utf8(s)[i] == decode_utf8(s.drop_first())[i - 1]);
                assert(s.drop_first()[i - 1] == s[i]);
            } else {
                let bb = s[0];
                assert(vstd::utf8::codepoint_width_1(bb) == bb as u32) by (bit_vector)
                    requires
                        bb < 0x80,
                ;
            }
        }
    }
}

/// Sanitize a name into a valid DNS-safe label: every byte of the result is
/// a lowercase letter, a digit or a hyphen, one for each byte of the input.
pub fn dns_sanitize(name: &str) -> (r: String)
    ensures
        r@.len() == name.spec_bytes().len(),
        forall|i: int|
            0 <= i < r@.len() ==> (#[trigger] r@[i]) == spec_sanitized(name.spec_bytes())[i]
                as char,
        forall|i: int|
            0 <= i < r@.len() ==> spec_dns_safe_byte(#[trigger] spec_sanitized(
                name.spec_bytes(),
            )[i]),
{
    let bytes = name.as_bytes_vec();
    let mut out: Vec<u8> = Vec::new();
    let mut i: usize = 0;
    while i < bytes.len()
        invariant
            bytes@ == name.spec_bytes(),
            0 <= i <= bytes@.len(),
            out@ =~= spec_sanitized(bytes@).subrange(0, i as int),
        decreases bytes@.len() - i,
    {
        let b = bytes[i];
        let c: u8 = if (97 <= b && b <= 122) || (48 <= b && b <= 57) || b == 45 {
            b
        } else if 65 <= b && b <= 90 {
            b + 32
        } else {
            45
        };
        out.push(c);
        i += 1;
        proof {
            assert(out@ =~= spec_sanitized(bytes@).subrange(0, i as int));
        }
    }
    proof {
        assert(out@ =~= spec_sanitized(bytes@));
        assert forall|j: int| 0 <= j < out@.len() implies (#[trigger] out@[j]) < 0x80 by {
            assert(out@[j] == spec_sanitize_byte(bytes@[j]));
        }
        lemma_ascii_bytes_utf8(out@);
    }
    match utf8_to_string(&out) {
        Some(s) => s,
        None => vstd::pervasive::unreached(),
    }
}

/// Whether the generation of identity material failed; fatal to the setup
/// attempt.
#[derive(Debug)]
pub enum IdentityError {
    CertificateGeneration,
}

/// Generate a peer's TLS identity: a self-signed certificate for the
/// sanitized display name, with its private key, both in DER form. No
/// certificate chain is involved; peers pin each other's certificates.
pub fn gen_cert_and_key(name: &str) -> (r: Result<(Vec<u8>, Vec<u8>), IdentityError>)
    ensures
        r matches Ok(c) ==> c.0@.len() > 0 && c.1@.len() > 0,
{
    let common_name = dns_sanitize(name);
    match rcgen_self_signed(&common_name) {
        Some(pair) => Ok(pair),
        None => Err(IdentityError::CertificateGeneration),
    }
}

} // verus!
