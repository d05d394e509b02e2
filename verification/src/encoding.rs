//! Canonical binary encoding of configuration data.
//!
//! Every hash of the protocol (federation identity, checksum barriers,
//! legacy hash) is computed over these bytes, so the encoding of a value is
//! a pure function of its contents: fixed-width big-endian integers and
//! length-prefixed byte strings, fields in declaration order.

use vstd::prelude::*;
use vstd::utf8::encode_utf8;

verus! {

pub open spec fn spec_u16_be(x: u16) -> Seq<u8> {
    seq![(x / 256) as u8, (x % 256) as u8]
}

pub open spec fn spec_u32_be(x: u32) -> Seq<u8> {
    seq![
        ((x / 0x1000000) % 256) as u8,
        ((x / 0x10000) % 256) as u8,
        ((x / 0x100) % 256) as u8,
        (x % 256) as u8,
    ]
}

#[verifier::opaque]
pub open spec fn spec_u64_be(x: u64) -> Seq<u8> {
    seq![
        ((x / 0x100000000000000) % 256) as u8,
        ((x / 0x1000000000000) % 256) as u8,
        ((x / 0x10000000000) % 256) as u8,
        ((x / 0x100000000) % 256) as u8,
        ((x / 0x1000000) % 256) as u8,
        ((x / 0x10000) % 256) as u8,
        ((x / 0x100) % 256) as u8,
        (x % 256) as u8,
    ]
}

/// A byte string, prefixed with its length.
#[verifier::opaque]
pub open spec fn spec_enc_bytes(b: Seq<u8>) -> Seq<u8> {
    spec_u64_be(b.len() as u64) + b
}

/// A character string: its UTF-8 bytes, prefixed with their count.
#[verifier::opaque]
pub open spec fn spec_enc_str(s: Seq<char>) -> Seq<u8> {
    spec_enc_bytes(encode_utf8(s))
}

/// An optional string: a presence byte, then the string if present.
#[verifier::opaque]
pub open spec fn spec_enc_opt_str(s: Option<Seq<char>>) -> Seq<u8> {
    match s {
        None => seq![0u8],
        Some(v) => seq![1u8] + spec_enc_str(v),
    }
}

/// The length of a length-prefixed byte string.
pub broadcast proof fn lemma_enc_bytes_len(b: Seq<u8>)
    ensures
        (#[trigger] spec_enc_bytes(b)).len() == 8 + b.len(),
{
    reveal(spec_u64_be);
    reveal(spec_enc_bytes);
}

/// The length of an encoded character string.
pub broadcast proof fn lemma_enc_str_len(s: Seq<char>)
    ensures
        (#[trigger] spec_enc_str(s)).len() == 8 + encode_utf8(s).len(),
{
    reveal(spec_enc_str);
    lemma_enc_bytes_len(encode_utf8(s));
}

/// The length of an encoded optional string.
pub broadcast proof fn lemma_enc_opt_str_len(s: Option<Seq<char>>)
    ensures
        (#[trigger] spec_enc_opt_str(s)).len() == match s {
            None => 1int,
            Some(v) => (9 + encode_utf8(v).len()) as int,
        },
{
    reveal(spec_enc_opt_str);
    match s {
        None => {},
        Some(v) => {
            lemma_enc_str_len(v);
        },
    }
}

pub fn push_u16(out: &mut Vec<u8>, x: u16)
    ensures
        final(out)@ == old(out)@ + spec_u16_be(x),
{
    out.push((x / 256) as u8);
    out.push((x % 256) as u8);
    proof {
        assert(final(out)@ =~= old(out)@ + spec_u16_be(x));
    }
}

pub fn push_u32(out: &mut Vec<u8>, x: u32)
    ensures
        final(out)@ == old(out)@ + spec_u32_be(x),
{
    out.push(((x / 0x1000000) % 256) as u8);
    out.push(((x / 0x10000) % 256) as u8);
    out.push(((x / 0x100) % 256) as u8);
    out.push((x % 256) as u8);
    proof {
        assert(final(out)@ =~= old(out)@ + spec_u32_be(x));
    }
}

pub fn push_u64(out: &mut Vec<u8>, x: u64)
    ensures
        final(out)@ == old(out)@ + spec_u64_be(x),
{
    proof {
        reveal(spec_u64_be);
    }
    out.push(((x / 0x100000000000000) % 256) as u8);
    out.push(((x / 0x1000000000000) % 256) as u8);
    out.push(((x / 0x10000000000) % 256) as u8);
    out.push(((x / 0x100000000) % 256) as u8);
    out.push(((x / 0x1000000) % 256) as u8);
    out.push(((x / 0x10000) % 256) as u8);
    out.push(((x / 0x100) % 256) as u8);
    out.push((x % 256) as u8);
    proof {
        assert(final(out)@ =~= old(out)@ + spec_u64_be(x));
    }
}

pub fn push_bytes(out: &mut Vec<u8>, b: &Vec<u8>)
    ensures
        final(out)@ == old(out)@ + spec_enc_bytes(b@),
{
    proof {
        reveal(spec_enc_bytes);
    }
    push_u64(out, b.len() as u64);
    let ghost mid = out@;
    let mut i: usize = 0;
    while i < b.len()
        invariant
            0 <= i <= b@.len(),
            out@ == mid + b@.subrange(0, i as int),
        decreases b@.len() - i,
    {
        out.push(b[i]);
        i += 1;
        proof {
            assert(out@ =~= mid + b@.subrange(0, i as int));
        }
    }
    proof {
        assert(b@.subrange(0, b@.len() as int) =~= b@);
        assert(final(out)@ =~= old(out)@ + spec_enc_bytes(b@));
    }
}

pub fn push_str(out: &mut Vec<u8>, s: &str)
    ensures
        final(out)@ == old(out)@ + spec_enc_str(s@),
{
    proof {
        reveal(spec_enc_str);
    }
    let bytes = vstd::string::StrSliceExecFns::as_bytes_vec(s);
    push_bytes(out, &bytes);
}

pub fn push_opt_str(out: &mut Vec<u8>, s: &Option<String>)
    ensures
        final(out)@ == old(out)@ + spec_enc_opt_str(match s {
            None => None,
            Some(v) => Some(v@),
        }),
{
    proof {
        reveal(spec_enc_opt_str);
    }
    match s {
        None => {
            out.push(0u8);
            proof {
                assert(final(out)@ =~= old(out)@ + seq![0u8]);
            }
        },
        Some(v) => {
            out.push(1u8);
            proof {
                assert(out@ =~= old(out)@ + seq![1u8]);
            }
            push_str(out, v.as_str());
            proof {
                assert(final(out)@ =~= old(out)@ + (seq![1u8] + spec_enc_str(v@)));
            }
        },
    }
}

} // verus!
