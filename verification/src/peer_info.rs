//! The textual form of a peer's connection information: the fixed prefix
//! `fedimint` followed by the base58 rendering of the record's canonical
//! binary encoding, for manual copy and paste before the protocol starts.
//! Decoding rejects any string without that prefix, and the parser is proved
//! to invert the encoder.

use vstd::prelude::*;
use vstd::arithmetic::div_mod::{lemma_div_denominator, lemma_fundamental_div_mod};
use vstd::string::StrSliceExecFns;
use vstd::utf8::{decode_utf8, encode_utf8, encode_utf8_decode_utf8, encode_utf8_valid_utf8, valid_utf8};

use crate::codec::{base58_decode, base58_decode_of, base58_encode, base58_of, utf8_to_string};
use crate::encoding::{
    push_bytes, push_opt_str, push_str, spec_enc_bytes, spec_enc_opt_str, spec_enc_str,
    spec_u64_be,
};
use crate::types::{PeerConnectionInfo, PeerConnectionInfoV};

verus! {

/// The canonical binary encoding of one peer's connection information.
pub open spec fn spec_enc_pci(p: PeerConnectionInfoV) -> Seq<u8> {
    spec_enc_bytes(p.cert) + (spec_enc_str(p.p2p_url) + (spec_enc_str(p.api_url) + (spec_enc_str(
        p.name,
    ) + spec_enc_opt_str(p.federation_name))))
}

/// The value of a big-endian byte string.
pub open spec fn spec_read_be(s: Seq<u8>) -> int
    decreases s.len(),
{
    if s.len() == 0 {
        0
    } else {
        spec_read_be(s.drop_last()) * 256 + s.last()
    }
}

proof fn lemma_read_be_bound(s: Seq<u8>)
    ensures
        0 <= spec_read_be(s) < vstd::arithmetic::power::pow(256, s.len() as nat),
    decreases s.len(),
{
    vstd::arithmetic::power::lemma_pow_positive(256, s.len() as nat);
    if s.len() > 0 {
        lemma_read_be_bound(s.drop_last());
        assert(vstd::arithmetic::power::pow(256, s.len() as nat) == 256
            * vstd::arithmetic::power::pow(256, (s.len() - 1) as nat)) by {
            vstd::arithmetic::power::lemma_pow1(256);
            vstd::arithmetic::power::lemma_pow_adds(256, 1, (s.len() - 1) as nat);
        }
        assert(spec_read_be(s) <= (spec_read_be(s.drop_last())) * 256 + 255);
        assert((spec_read_be(s.drop_last())) * 256 + 255 < vstd::arithmetic::power::pow(
            256,
            s.len() as nat,
        )) by (nonlinear_arith)
            requires
                0 <= spec_read_be(s.drop_last()) < vstd::arithmetic::power::pow(
                    256,
                    (s.len() - 1) as nat,
                ),
                vstd::arithmetic::power::pow(256, s.len() as nat) == 256
                    * vstd::arithmetic::power::pow(256, (s.len() - 1) as nat),
        ;
    }
}

/// Reading back the eight-byte rendering of a value gives the value.
pub proof fn lemma_read_be_inverts_u64(x: u64)
    ensures
        spec_read_be(spec_u64_be(x)) == x,
{
    reveal(spec_u64_be);
    let e = spec_u64_be(x);
    let xi = x as int;
    let d1 = xi / 0x100;
    let d2 = xi / 0x10000;
    let d3 = xi / 0x1000000;
    let d4 = xi / 0x100000000;
    let d5 = xi / 0x10000000000;
    let d6 = xi / 0x1000000000000;
    let d7 = xi / 0x100000000000000;
    lemma_div_denominator(xi, 0x100, 0x100);
    lemma_div_denominator(xi, 0x10000, 0x100);
    lemma_div_denominator(xi, 0x1000000, 0x100);
    lemma_div_denominator(xi, 0x100000000, 0x100);
    lemma_div_denominator(xi, 0x10000000000, 0x100);
    lemma_div_denominator(xi, 0x1000000000000, 0x100);
    assert(d1 / 0x100 == d2);
    assert(d2 / 0x100 == d3);
    assert(d3 / 0x100 == d4);
    assert(d4 / 0x100 == d5);
    assert(d5 / 0x100 == d6);
    assert(d6 / 0x100 == d7);
    lemma_fundamental_div_mod(xi, 0x100);
    lemma_fundamental_div_mod(d1, 0x100);
    lemma_fundamental_div_mod(d2, 0x100);
    lemma_fundamental_div_mod(d3, 0x100);
    lemma_fundamental_div_mod(d4, 0x100);
    lemma_fundamental_div_mod(d5, 0x100);
    lemma_fundamental_div_mod(d6, 0x100);
    assert(d7 < 0x100) by {
        assert(xi < 0x10000000000000000);
        assert(xi / 0x100000000000000 < 0x100) by (nonlinear_arith)
            requires
                0 <= xi < 0x10000000000000000,
        ;
    }
    assert(d7 % 0x100 == d7) by {
        vstd::arithmetic::div_mod::lemma_small_mod(d7 as nat, 0x100);
    }
    // unfold the read of the eight bytes, from the last
    assert(e.len() == 8);
    let e7 = e.drop_last();
    let e6 = e7.drop_last();
    let e5 = e6.drop_last();
    let e4 = e5.drop_last();
    let e3 = e4.drop_last();
    let e2 = e3.drop_last();
    let e1 = e2.drop_last();
    let e0 = e1.drop_last();
    assert(e0 =~= Seq::<u8>::empty());
    assert(spec_read_be(e0) == 0);
    assert(e1.len() == 1);
    assert(e1.last() == e[0]);
    assert(e2.last() == e[1]);
    assert(e3.last() == e[2]);
    assert(e4.last() == e[3]);
    assert(e5.last() == e[4]);
    assert(e6.last() == e[5]);
    assert(e7.last() == e[6]);
    assert(spec_read_be(e1) == (d7 % 0x100));
    assert(spec_read_be(e2) == spec_read_be(e1) * 256 + (d6 % 0x100));
    assert(spec_read_be(e3) == spec_read_be(e2) * 256 + (d5 % 0x100));
    assert(spec_read_be(e4) == spec_read_be(e3) * 256 + (d4 % 0x100));
    assert(spec_read_be(e5) == spec_read_be(e4) * 256 + (d3 % 0x100));
    assert(spec_read_be(e6) == spec_read_be(e5) * 256 + (d2 % 0x100));
    assert(spec_read_be(e7) == spec_read_be(e6) * 256 + (d1 % 0x100));
    assert(spec_read_be(e) == spec_read_be(e7) * 256 + (xi % 0x100));
    assert(spec_read_be(e1) == d7);
    assert(spec_read_be(e2) == d6);
    assert(spec_read_be(e3) == d5);
    assert(spec_read_be(e4) == d4);
    assert(spec_read_be(e5) == d3);
    assert(spec_read_be(e6) == d2);
    assert(spec_read_be(e7) == d1);
    assert(spec_read_be(e) == xi);
}

/// Parse a length-prefixed byte string at `pos`.
pub open spec fn spec_parse_bytes(s: Seq<u8>, pos: int) -> Option<(Seq<u8>, int)> {
    if pos < 0 || pos + 8 > s.len() {
        None
    } else {
        let n = spec_read_be(s.subrange(pos, pos + 8));
        if pos + 8 + n > s.len() {
            None
        } else {
            Some((s.subrange(pos + 8, pos + 8 + n), pos + 8 + n))
        }
    }
}

/// Parse a length-prefixed character string at `pos`.
pub open spec fn spec_parse_str(s: Seq<u8>, pos: int) -> Option<(Seq<char>, int)> {
    match spec_parse_bytes(s, pos) {
        None => None,
        Some((b, p)) => if valid_utf8(b) {
            Some((decode_utf8(b), p))
        } else {
            None
        },
    }
}

/// Parse an optional string: a presence byte, then the string if present.
pub open spec fn spec_parse_opt_str(s: Seq<u8>, pos: int) -> Option<(Option<Seq<char>>, int)> {
    if pos < 0 || pos >= s.len() {
        None
    } else if s[pos] == 0 {
        Some((None, pos + 1))
    } else if s[pos] == 1 {
        match spec_parse_str(s, pos + 1) {
            None => None,
            Some((v, p)) => Some((Some(v), p)),
        }
    } else {
        None
    }
}

/// Parse a whole connection-information record; every byte must be
/// consumed.
pub open spec fn spec_parse_pci(s: Seq<u8>) -> Option<PeerConnectionInfoV> {
    match spec_parse_bytes(s, 0) {
        None => None,
        Some((cert, p1)) => match spec_parse_str(s, p1) {
            None => None,
            Some((p2p_url, p2)) => match spec_parse_str(s, p2) {
                None => None,
                Some((api_url, p3)) => match spec_parse_str(s, p3) {
                    None => None,
                    Some((name, p4)) => match spec_parse_opt_str(s, p4) {
                        None => None,
                        Some((federation_name, p5)) => if p5 == s.len() {
                            Some(
                                PeerConnectionInfoV {
                                    cert,
                                    p2p_url,
                                    api_url,
                                    name,
                                    federation_name,
                                },
                            )
                        } else {
                            None
                        },
                    },
                },
            },
        },
    }
}

/// Parsing a byte string finds what was encoded, whatever follows it.
proof fn lemma_parse_bytes_enc(b: Seq<u8>, rest: Seq<u8>, pos: int, s: Seq<u8>)
    requires
        b.len() < 0x10000000000000000,
        0 <= pos <= s.len(),
        s.subrange(pos, s.len() as int) == spec_enc_bytes(b) + rest,
    ensures
        spec_parse_bytes(s, pos) == Some((b, pos + 8 + b.len())),
{
    reveal(spec_u64_be);
    reveal(spec_enc_bytes);
    let tail = s.subrange(pos, s.len() as int);
    assert(tail.len() == 8 + b.len() + rest.len());
    lemma_read_be_inverts_u64(b.len() as u64);
    assert(s.subrange(pos, pos + 8) =~= spec_u64_be(b.len() as u64)) by {
        assert forall|i: int| 0 <= i < 8 implies #[trigger] (s.subrange(pos, pos + 8)[i])
            == spec_u64_be(b.len() as u64)[i] by {
            assert(s.subrange(pos, pos + 8)[i] == tail[i]);
            assert(tail[i] == (spec_enc_bytes(b) + rest)[i]);
        }
    }
    assert(spec_read_be(s.subrange(pos, pos + 8)) == b.len());
    assert(s.subrange(pos + 8, pos + 8 + b.len()) =~= b) by {
        assert forall|i: int| 0 <= i < b.len() implies #[trigger] (s.subrange(
            pos + 8,
            pos + 8 + b.len(),
        )[i]) == b[i] by {
            assert(s.subrange(pos + 8, pos + 8 + b.len())[i] == tail[i + 8]);
            assert(tail[i + 8] == (spec_enc_bytes(b) + rest)[i + 8]);
        }
    }
}

/// Parsing a character string finds what was encoded.
proof fn lemma_parse_str_enc(v: Seq<char>, rest: Seq<u8>, pos: int, s: Seq<u8>)
    requires
        encode_utf8(v).len() < 0x10000000000000000,
        0 <= pos <= s.len(),
        s.subrange(pos, s.len() as int) == spec_enc_str(v) + rest,
    ensures
        spec_parse_str(s, pos) == Some((v, pos + 8 + encode_utf8(v).len())),
{
    reveal(spec_enc_str);
    lemma_parse_bytes_enc(encode_utf8(v), rest, pos, s);
    encode_utf8_valid_utf8(v);
    encode_utf8_decode_utf8(v);
}

impl PeerConnectionInfo {
    /// The canonical binary encoding of this record.
    pub fn consensus_encode(&self) -> (r: Vec<u8>)
        ensures
            r@ == spec_enc_pci(self.deep_view()),
    {
        let mut out: Vec<u8> = Vec::new();
        push_bytes(&mut out, &self.cert);
        push_str(&mut out, self.p2p_url.as_str());
        push_str(&mut out, self.api_url.as_str());
        push_str(&mut out, self.name.as_str());
        push_opt_str(&mut out, &self.federation_name);
        proof {
            assert(out@ =~= spec_enc_pci(self.deep_view()));
        }
        out
    }
}

/// Step past a parsed field: what remains after the front of a suffix.
proof fn lemma_peel(s: Seq<u8>, pos: int, a: Seq<u8>, b: Seq<u8>)
    requires
        0 <= pos <= s.len(),
        s.subrange(pos, s.len() as int) == a + b,
    ensures
        pos + a.len() <= s.len(),
        s.subrange(pos + a.len(), s.len() as int) == b,
{
    assert(s.subrange(pos, s.len() as int).len() == s.len() - pos);
    assert((a + b).len() == a.len() + b.len());
    assert(pos + a.len() + b.len() == s.len());
    assert(s.subrange(pos + a.len(), s.len() as int) =~= b) by {
        assert forall|i: int|
            0 <= i < b.len() implies #[trigger] (s.subrange(
            pos + a.len(),
            s.len() as int,
        )[i]) == b[i] by {
            assert(s.subrange(pos + a.len(), s.len() as int)[i] == s[pos + a.len() + i]);
            assert(s.subrange(pos, s.len() as int)[a.len() + i] == s[pos + a.len() + i]);
            assert((a + b)[a.len() + i] == b[i]);
        }
    }
}

/// Parsing the encoding: the certificate and the first two strings are
/// found at their positions.
#[verifier::rlimit(100)]
proof fn lemma_pci_parse_front(v: PeerConnectionInfoV)
    requires
        v.cert.len() < 0x10000000000000000,
        encode_utf8(v.p2p_url).len() < 0x10000000000000000,
        encode_utf8(v.api_url).len() < 0x10000000000000000,
    ensures
        ({
            let s = spec_enc_pci(v);
            let p1 = 8 + v.cert.len() as int;
            let p2 = p1 + 8 + encode_utf8(v.p2p_url).len() as int;
            let p3 = p2 + 8 + encode_utf8(v.api_url).len() as int;
            &&& spec_parse_bytes(s, 0) == Some((v.cert, p1))
            &&& spec_parse_str(s, p1) == Some((v.p2p_url, p2))
            &&& spec_parse_str(s, p2) == Some((v.api_url, p3))
            &&& p3 <= s.len()
            &&& s.subrange(p3, s.len() as int) == spec_enc_str(v.name) + spec_enc_opt_str(
                v.federation_name,
            )
        }),
{
    broadcast use crate::encoding::lemma_enc_bytes_len, crate::encoding::lemma_enc_str_len, crate::encoding::lemma_enc_opt_str_len;

    let s = spec_enc_pci(v);
    let ec = spec_enc_bytes(v.cert);
    let e1 = spec_enc_str(v.p2p_url);
    let e2 = spec_enc_str(v.api_url);
    let e3 = spec_enc_str(v.name);
    let e4 = spec_enc_opt_str(v.federation_name);
    let r3 = e3 + e4;
    let r2 = e2 + r3;
    let r1 = e1 + r2;
    assert(s == ec + r1);
    assert(s.subrange(0, s.len() as int) =~= s);

    lemma_parse_bytes_enc(v.cert, r1, 0, s);
    let p1 = 8 + v.cert.len() as int;
    lemma_peel(s, 0, ec, r1);
    assert(ec.len() == p1);

    lemma_parse_str_enc(v.p2p_url, r2, p1, s);
    let p2 = p1 + 8 + encode_utf8(v.p2p_url).len() as int;
    lemma_peel(s, p1, e1, r2);
    assert(p1 + e1.len() == p2);

    lemma_parse_str_enc(v.api_url, r3, p2, s);
    let p3 = p2 + 8 + encode_utf8(v.api_url).len() as int;
    lemma_peel(s, p2, e2, r3);
    assert(p2 + e2.len() == p3);
}

/// The parser inverts the encoder: the canonical encoding of any record
/// parses back to that record.
#[verifier::rlimit(100)]
pub proof fn lemma_pci_parse_inverts_encoding(v: PeerConnectionInfoV)
    requires
        v.cert.len() < 0x10000000000000000,
        encode_utf8(v.p2p_url).len() < 0x10000000000000000,
        encode_utf8(v.api_url).len() < 0x10000000000000000,
        encode_utf8(v.name).len() < 0x10000000000000000,
        v.federation_name matches Some(n) ==> encode_utf8(n).len() < 0x10000000000000000,
    ensures
        spec_parse_pci(spec_enc_pci(v)) == Some(v),
{
    broadcast use crate::encoding::lemma_enc_bytes_len, crate::encoding::lemma_enc_str_len, crate::encoding::lemma_enc_opt_str_len;

    let s = spec_enc_pci(v);
    let e3 = spec_enc_str(v.name);
    let e4 = spec_enc_opt_str(v.federation_name);
    lemma_pci_parse_front(v);
    let p1 = 8 + v.cert.len() as int;
    let p2 = p1 + 8 + encode_utf8(v.p2p_url).len() as int;
    let p3 = p2 + 8 + encode_utf8(v.api_url).len() as int;

    lemma_parse_str_enc(v.name, e4, p3, s);
    let p4 = p3 + 8 + encode_utf8(v.name).len() as int;
    lemma_peel(s, p3, e3, e4);
    assert(p3 + e3.len() == p4);
    assert(s.subrange(p4, s.len() as int) == e4);

    match v.federation_name {
        None => {
            assert(e4 == seq![0u8]) by {
                reveal(spec_enc_opt_str);
            }
            assert(s[p4] == s.subrange(p4, s.len() as int)[0]);
            assert(s[p4] == 0);
            assert(spec_parse_opt_str(s, p4) == Some((None::<Seq<char>>, p4 + 1)));
            assert(p4 + 1 == s.len());
        },
        Some(n) => {
            assert(e4 == seq![1u8] + spec_enc_str(n)) by {
                reveal(spec_enc_opt_str);
            }
            assert(s[p4] == s.subrange(p4, s.len() as int)[0]);
            assert(s[p4] == 1);
            lemma_peel(s, p4, seq![1u8], spec_enc_str(n));
            assert(s.subrange(p4 + 1, s.len() as int) == spec_enc_str(n) + Seq::<u8>::empty())
                by {
                assert(spec_enc_str(n) + Seq::<u8>::empty() =~= spec_enc_str(n));
            }
            lemma_parse_str_enc(n, Seq::empty(), p4 + 1, s);
            let p5 = p4 + 1 + 8 + encode_utf8(n).len() as int;
            assert(p5 == s.len());
            assert(spec_parse_opt_str(s, p4) == Some((Some(n), p5)));
        },
    }
}


/// Read an eight-byte big-endian value.
fn read_u64_at(b: &Vec<u8>, pos: usize) -> (r: Option<(u64, usize)>)
    ensures
        r matches Some(x) ==> pos + 8 <= b@.len() && x.1 == pos + 8 && x.0 as int == spec_read_be(
            b@.subrange(pos as int, pos as int + 8),
        ),
        r is None <==> pos + 8 > b@.len(),
{
    let n = b.len();
    if n < 8 || pos > n - 8 {
        return None;
    }
    let mut acc: u64 = 0;
    let mut k: usize = 0;
    proof {
        assert(b@.subrange(pos as int, pos as int) =~= Seq::<u8>::empty());
        vstd::arithmetic::power::lemma_pow0(256);
    }
    while k < 8
        invariant
            pos + 8 <= b@.len(),
            b@.len() <= usize::MAX,
            0 <= k <= 8,
            acc as int == spec_read_be(b@.subrange(pos as int, pos as int + k as int)),
            (acc as int) < vstd::arithmetic::power::pow(256, k as nat),
        decreases 8 - k,
    {
        proof {
            vstd::arithmetic::power::lemma_pow_increases(256, k as nat, 7);
            assert(vstd::arithmetic::power::pow(256, 7) == 0x100000000000000) by {
                reveal_with_fuel(vstd::arithmetic::power::pow, 8);
            }
            assert(vstd::arithmetic::power::pow(256, (k + 1) as nat) == 256
                * vstd::arithmetic::power::pow(256, k as nat)) by {
                vstd::arithmetic::power::lemma_pow1(256);
                vstd::arithmetic::power::lemma_pow_adds(256, 1, k as nat);
            }
            assert((acc as int) * 256 + 255 < vstd::arithmetic::power::pow(256, (k + 1) as nat))
                by (nonlinear_arith)
                requires
                    0 <= acc as int,
                    (acc as int) < vstd::arithmetic::power::pow(256, k as nat),
                    vstd::arithmetic::power::pow(256, (k + 1) as nat) == 256
                        * vstd::arithmetic::power::pow(256, k as nat),
            ;
            assert((acc as int) * 256 + 255 < 0x10000000000000000) by {
                vstd::arithmetic::power::lemma_pow_increases(256, (k + 1) as nat, 8);
                assert(vstd::arithmetic::power::pow(256, 8) == 0x10000000000000000) by {
                    reveal_with_fuel(vstd::arithmetic::power::pow, 9);
                }
            }
        }
        let ghost pre = b@.subrange(pos as int, pos as int + k as int);
        acc = acc * 256 + (b[pos + k] as u64);
        k += 1;
        proof {
            let cur = b@.subrange(pos as int, pos as int + k as int);
            assert(cur =~= pre.push(b@[pos as int + k - 1]));
            assert(cur.drop_last() =~= pre);
            assert(spec_read_be(cur) == spec_read_be(pre) * 256 + b@[pos as int + k - 1]);
        }
    }
    Some((acc, pos + 8))
}

/// Read a length-prefixed byte string.
fn read_bytes_at(b: &Vec<u8>, pos: usize) -> (r: Option<(Vec<u8>, usize)>)
    ensures
        r matches Some(x) ==> pos as int + 8 + x.0@.len() == x.1 as int && spec_parse_bytes(
            b@,
            pos as int,
        ) == Some((x.0@, x.1 as int)),
        r is None <==> spec_parse_bytes(b@, pos as int) is None,
{
    let (n64, p) = match read_u64_at(b, pos) {
        Some(x) => x,
        None => {
            return None;
        },
    };
    let remaining = b.len() - p;
    if n64 > remaining as u64 {
        return None;
    }
    let n = n64 as usize;
    let mut v: Vec<u8> = Vec::new();
    let mut k: usize = 0;
    let blen = b.len();
    proof {
        assert(b@.len() == blen);
        assert(v@ =~= b@.subrange(p as int, p as int));
    }
    while k < n
        invariant
            p + n <= b@.len(),
            b@.len() <= usize::MAX,
            0 <= k <= n,
            v@ == b@.subrange(p as int, p as int + k as int),
        decreases n - k,
    {
        v.push(b[p + k]);
        k += 1;
        proof {
            assert(v@ =~= b@.subrange(p as int, p as int + k as int));
        }
    }
    proof {
        assert(v@ =~= b@.subrange(p as int, p as int + n as int));
    }
    Some((v, p + n))
}

/// Read a length-prefixed character string.
fn read_str_at(b: &Vec<u8>, pos: usize) -> (r: Option<(String, usize)>)
    ensures
        r matches Some(x) ==> spec_parse_str(b@, pos as int) == Some((x.0@, x.1 as int)),
        r is None <==> spec_parse_str(b@, pos as int) is None,
{
    let (bytes, p) = match read_bytes_at(b, pos) {
        Some(x) => x,
        None => {
            return None;
        },
    };
    match utf8_to_string(&bytes) {
        Some(st) => Some((st, p)),
        None => None,
    }
}

/// Read an optional string: a presence byte, then the string if present.
fn read_opt_str_at(b: &Vec<u8>, pos: usize) -> (r: Option<(Option<String>, usize)>)
    ensures
        r matches Some(x) ==> spec_parse_opt_str(b@, pos as int) == Some((
            x.0.deep_view(),
            x.1 as int,
        )),
        r is None <==> spec_parse_opt_str(b@, pos as int) is None,
{
    if pos >= b.len() {
        return None;
    }
    let tag = b[pos];
    if tag == 0 {
        Some((None, pos + 1))
    } else if tag == 1 {
        match read_str_at(b, pos + 1) {
            Some((st, p)) => Some((Some(st), p)),
            None => None,
        }
    } else {
        None
    }
}

impl PeerConnectionInfo {
    /// Decode a whole canonical record; every byte must be consumed.
    pub fn consensus_decode_whole(b: &Vec<u8>) -> (r: Option<PeerConnectionInfo>)
        ensures
            r matches Some(info) ==> spec_parse_pci(b@) == Some(info.deep_view()),
            r is None <==> spec_parse_pci(b@) is None,
    {
        let (cert, p1) = match read_bytes_at(b, 0) {
            Some(x) => x,
            None => {
                return None;
            },
        };
        let (p2p_url, p2) = match read_str_at(b, p1) {
            Some(x) => x,
            None => {
                return None;
            },
        };
        let (api_url, p3) = match read_str_at(b, p2) {
            Some(x) => x,
            None => {
                return None;
            },
        };
        let (name, p4) = match read_str_at(b, p3) {
            Some(x) => x,
            None => {
                return None;
            },
        };
        let (federation_name, p5) = match read_opt_str_at(b, p4) {
            Some(x) => x,
            None => {
                return None;
            },
        };
        if p5 != b.len() {
            return None;
        }
        Some(PeerConnectionInfo { cert, p2p_url, api_url, name, federation_name })
    }

    /// The textual form: the fixed prefix, then the base58 rendering of the
    /// canonical encoding. The result decodes back to this record.
    pub fn encode_base58(&self) -> (r: String)
        ensures
            r@ == "fedimint"@ + base58_of(spec_enc_pci(self.deep_view())),
            base58_decode_of(r@.subrange(8, r@.len() as int)) == Some(
                spec_enc_pci(self.deep_view()),
            ),
    {
        let bytes = self.consensus_encode();
        let b58 = base58_encode(&bytes);
        let mut out = String::from_str("fedimint");
        out.append(b58.as_str());
        proof {
            reveal_strlit("fedimint");
            assert(out@.subrange(8, out@.len() as int) =~= b58@);
        }
        out
    }

    /// Decode the textual form; any string without the fixed prefix is
    /// rejected, as is anything the base58 codec or the record parser does
    /// not accept in full.
    pub fn decode_base58(s: &str) -> (r: Result<PeerConnectionInfo, PeerInfoDecodeError>)
        ensures
            r matches Ok(info) ==> s@.len() >= 8 && s@.subrange(0, 8) == "fedimint"@
                && (base58_decode_of(s@.subrange(8, s@.len() as int)) matches Some(bytes)
                && spec_parse_pci(bytes) == Some(info.deep_view())),
            r matches Err(PeerInfoDecodeError::InvalidPrefix) <==> (s@.len() < 8 || s@.subrange(
                0,
                8,
            ) != "fedimint"@),
            // decoding succeeds on every validly encoded string: the prefix
            // stands, the payload is base58 and carries one whole record
            s@.len() >= 8 && s@.subrange(0, 8) == "fedimint"@ ==> (base58_decode_of(
                s@.subrange(8, s@.len() as int),
            ) matches Some(b) ==> (spec_parse_pci(b) matches Some(v) ==> (r matches Ok(info)
                && info.deep_view() == v))),
            r matches Err(PeerInfoDecodeError::InvalidEncoding) <==> (s@.len() >= 8 && s@.subrange(
                0,
                8,
            ) == "fedimint"@ && match base58_decode_of(s@.subrange(8, s@.len() as int)) {
                None => true,
                Some(b) => spec_parse_pci(b) is None,
            }),
    {
        proof {
            reveal_strlit("fedimint");
        }
        let n = s.unicode_len();
        if n < 8 {
            return Err(PeerInfoDecodeError::InvalidPrefix);
        }
        let prefix = s.substring_char(0, 8).to_owned();
        let expected = String::from_str("fedimint");
        if !prefix.eq(&expected) {
            proof {
                assert(s@.subrange(0, 8) != "fedimint"@);
            }
            return Err(PeerInfoDecodeError::InvalidPrefix);
        }
        let rest = s.substring_char(8, n);
        proof {
            assert(rest@ == s@.subrange(8, s@.len() as int));
        }
        let bytes = match base58_decode(rest) {
            Some(b) => b,
            None => {
                proof {
                    assert(base58_decode_of(s@.subrange(8, s@.len() as int)) is None);
                }
                return Err(PeerInfoDecodeError::InvalidEncoding);
            },
        };
        proof {
            assert(bytes.deep_view() =~= bytes@);
            assert(rest@ == s@.subrange(8, s@.len() as int));
            assert(base58_decode_of(s@.subrange(8, s@.len() as int)) == Some(bytes@));
        }
        match Self::consensus_decode_whole(&bytes) {
            Some(info) => Ok(info),
            None => Err(PeerInfoDecodeError::InvalidEncoding),
        }
    }
}

/// Why a textual peer-information string was rejected.
#[derive(Debug)]
pub enum PeerInfoDecodeError {
    /// The fixed prefix is missing.
    InvalidPrefix,
    /// The base58 payload, or the record it carries, is malformed.
    InvalidEncoding,
}

} // verus!
