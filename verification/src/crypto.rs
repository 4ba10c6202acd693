//! Certificate fingerprints, pairing PINs and the trust-on-first-use
//! certificate decision.
//!
//! Fingerprints are SHA-256 digests of DER certificates, computed by the
//! `sha2` crate; what follows the digest is verified here.

use sha2::{Digest, Sha256};
use vstd::prelude::*;
use vstd::string::StringSliceAdditionalSpecFns;
use vstd::utf8::{encode_utf8, is_ascii_chars, is_ascii_chars_encode_utf8};

use crate::wire::from_be32;

verus! {

/// The SHA-256 digest of a byte string, as the `sha2` crate computes it.
pub uninterp spec fn sha256(data: Seq<u8>) -> Seq<u8>;

/// SHA-256 of `data`.
///
/// Calls `<sha2::Sha256 as digest::Digest>::digest`, which runs a fresh
/// hasher over `data` and finalizes it. The contract names the 32-byte result
/// `sha256(data)`; nothing else is claimed of it.
#[verifier::external_body]
fn sha256_digest(data: &[u8]) -> (r: [u8; 32])
    ensures
        r@ == sha256(data@),
{
    let out = Sha256::digest(data);
    let mut arr = [0u8; 32];
    arr.copy_from_slice(&out);
    arr
}

/// The SHA-256 fingerprint of a DER-encoded certificate.
pub fn compute_fingerprint(cert_der: &[u8]) -> (r: [u8; 32])
    ensures
        r@ == sha256(cert_der@),
{
    sha256_digest(cert_der)
}

/// Whether two fingerprints are byte-for-byte equal.
pub(crate) fn same_fingerprint(a: &[u8; 32], b: &[u8; 32]) -> (r: bool)
    ensures
        r == (a@ == b@),
{
    let mut i: usize = 0;
    while i < 32
        invariant
            0 <= i <= 32,
            a@.len() == 32,
            b@.len() == 32,
            forall|j: int| 0 <= j < i ==> a@[j] == b@[j],
        decreases 32 - i,
    {
        if a[i] != b[i] {
            return false;
        }
        i = i + 1;
    }
    assert(a@ =~= b@);
    true
}

/// State tracking for pending certificate validation during pairing.
#[derive(Debug, Clone, Copy)]
pub struct PendingPairingState {
    /// The fingerprint of the certificate presented by the peer during the handshake.
    pub peer_fingerprint: Option<[u8; 32]>,
}

impl Default for PendingPairingState {
    fn default() -> (r: Self)
        ensures
            r.peer_fingerprint is None,
    {
        PendingPairingState { peer_fingerprint: None }
    }
}

/// Outcome of checking a peer's end-entity certificate under
/// trust-on-first-use.
#[derive(Debug, Clone, Copy)]
pub struct CertificateCheck {
    /// SHA-256 fingerprint of the presented certificate.
    pub fingerprint: [u8; 32],
    /// Whether the handshake may go on with this certificate.
    pub accepted: bool,
    /// Whether the fingerprint is to be recorded as the pending pairing peer.
    pub record_as_pending: bool,
}

/// Trust-on-first-use check of a peer certificate. In pairing mode any
/// certificate is accepted and its fingerprint is to be recorded; otherwise
/// it is accepted exactly when its fingerprint is pinned in `trusted`.
pub fn check_peer_certificate(end_entity_der: &[u8], is_pairing: bool, trusted: &[[u8; 32]]) -> (r:
    CertificateCheck)
    ensures
        r.fingerprint@ == sha256(end_entity_der@),
        r.record_as_pending == is_pairing,
        r.accepted == (is_pairing || exists|i: int|
            0 <= i < trusted@.len() && (#[trigger] trusted@[i])@ == sha256(end_entity_der@)),
{
    let fp = compute_fingerprint(end_entity_der);
    if is_pairing {
        return CertificateCheck { fingerprint: fp, accepted: true, record_as_pending: true };
    }
    let mut i: usize = 0;
    while i < trusted.len()
        invariant
            0 <= i <= trusted@.len(),
            !is_pairing,
            fp@ == sha256(end_entity_der@),
            forall|j: int| 0 <= j < i ==> (#[trigger] trusted@[j])@ != fp@,
        decreases trusted@.len() - i,
    {
        if same_fingerprint(&trusted[i], &fp) {
            return CertificateCheck { fingerprint: fp, accepted: true, record_as_pending: false };
        }
        i = i + 1;
    }
    CertificateCheck { fingerprint: fp, accepted: false, record_as_pending: false }
}

/// Lexicographic order on byte strings, as Rust compares arrays and slices.
pub open spec fn lex_le(a: Seq<u8>, b: Seq<u8>) -> bool
    decreases a.len(),
{
    if a.len() == 0 {
        true
    } else if b.len() == 0 {
        false
    } else if a[0] != b[0] {
        a[0] < b[0]
    } else {
        lex_le(a.drop_first(), b.drop_first())
    }
}

/// `lex_le` is total and antisymmetric.
pub proof fn lemma_lex_le_total_antisymmetric(a: Seq<u8>, b: Seq<u8>)
    ensures
        lex_le(a, b) || lex_le(b, a),
        lex_le(a, b) && lex_le(b, a) ==> a == b,
    decreases a.len(),
{
    if a.len() > 0 && a[0] == b[0] {
        lemma_lex_le_total_antisymmetric(a.drop_first(), b.drop_first());
        if lex_le(a, b) && lex_le(b, a) {
            assert(a =~= seq![a[0]] + a.drop_first());
            assert(b =~= seq![b[0]] + b.drop_first());
        }
    }
    if a.len() == 0 && b.len() == 0 {
        assert(a =~= b);
    }
}

/// `lex_le` is Rust's order on byte arrays: of two equally long strings that
/// agree before position `i` and differ at `i`, the one with the smaller byte
/// at `i` comes first.
pub proof fn lemma_lex_le_first_difference(a: Seq<u8>, b: Seq<u8>, i: int)
    requires
        a.len() == b.len(),
        0 <= i < a.len(),
        a.take(i) == b.take(i),
        a[i] != b[i],
    ensures
        lex_le(a, b) == (a[i] < b[i]),
    decreases i,
{
    if i > 0 {
        assert(a[0] == a.take(i)[0] && b[0] == b.take(i)[0]);
        assert(a.drop_first().take(i - 1) =~= a.take(i).drop_first());
        assert(b.drop_first().take(i - 1) =~= b.take(i).drop_first());
        lemma_lex_le_first_difference(a.drop_first(), b.drop_first(), i - 1);
    }
}

/// Every byte string comes at or before itself.
pub proof fn lemma_lex_le_reflexive(a: Seq<u8>)
    ensures
        lex_le(a, a),
    decreases a.len(),
{
    if a.len() > 0 {
        lemma_lex_le_reflexive(a.drop_first());
    }
}

/// Whether `a` is lexicographically at most `b`.
fn fingerprint_le(a: &[u8; 32], b: &[u8; 32]) -> (r: bool)
    ensures
        r == lex_le(a@, b@),
{
    let mut i: usize = 0;
    assert(a@.skip(0) =~= a@);
    assert(b@.skip(0) =~= b@);
    while i < 32
        invariant
            0 <= i <= 32,
            a@.len() == 32,
            b@.len() == 32,
            lex_le(a@, b@) == lex_le(a@.skip(i as int), b@.skip(i as int)),
        decreases 32 - i,
    {
        if a[i] != b[i] {
            return a[i] < b[i];
        }
        assert(a@.skip(i as int).drop_first() =~= a@.skip(i + 1));
        assert(b@.skip(i as int).drop_first() =~= b@.skip(i + 1));
        i = i + 1;
    }
    true
}

/// Upper-case hexadecimal digit of a value below 16.
pub open spec fn hex_upper_char(n: u8) -> char {
    if n < 10 {
        (0x30 + n) as char
    } else {
        (0x41 + n - 10) as char
    }
}

/// The two upper-case hex digits of a byte.
pub open spec fn byte_hex(b: u8) -> Seq<char> {
    seq![hex_upper_char(b / 16), hex_upper_char(b % 16)]
}

/// Colon-separated upper-case hex of a byte string, e.g. `AA:BB:CC`.
pub open spec fn fingerprint_chars(fp: Seq<u8>) -> Seq<char>
    decreases fp.len(),
{
    if fp.len() == 0 {
        seq![]
    } else if fp.len() == 1 {
        byte_hex(fp[0])
    } else {
        fingerprint_chars(fp.drop_last()) + seq![':'] + byte_hex(fp.last())
    }
}

/// The one-character string of an upper-case hex digit.
fn hex_digit_str(n: u8) -> (r: &'static str)
    requires
        n < 16,
    ensures
        r@ == seq![hex_upper_char(n)],
{
    match n {
        0 => {
            proof {
                reveal_strlit("0");
            }
            "0"
        },
        1 => {
            proof {
                reveal_strlit("1");
            }
            "1"
        },
        2 => {
            proof {
                reveal_strlit("2");
            }
            "2"
        },
        3 => {
            proof {
                reveal_strlit("3");
            }
            "3"
        },
        4 => {
            proof {
                reveal_strlit("4");
            }
            "4"
        },
        5 => {
            proof {
                reveal_strlit("5");
            }
            "5"
        },
        6 => {
            proof {
                reveal_strlit("6");
            }
            "6"
        },
        7 => {
            proof {
                reveal_strlit("7");
            }
            "7"
        },
        8 => {
            proof {
                reveal_strlit("8");
            }
            "8"
        },
        9 => {
            proof {
                reveal_strlit("9");
            }
            "9"
        },
        10 => {
            proof {
                reveal_strlit("A");
            }
            "A"
        },
        11 => {
            proof {
                reveal_strlit("B");
            }
            "B"
        },
        12 => {
            proof {
                reveal_strlit("C");
            }
            "C"
        },
        13 => {
            proof {
                reveal_strlit("D");
            }
            "D"
        },
        14 => {
            proof {
                reveal_strlit("E");
            }
            "E"
        },
        _ => {
            proof {
                reveal_strlit("F");
            }
            "F"
        },
    }
}

/// A fingerprint as colon-separated upper-case hex, e.g. `"AA:BB:CC..."`.
pub fn fingerprint_to_string(fp: &[u8; 32]) -> (r: String)
    ensures
        r@ == fingerprint_chars(fp@),
{
    let mut res = String::new();
    let mut i: usize = 0;
    while i < 32
        invariant
            0 <= i <= 32,
            fp@.len() == 32,
            res@ == fingerprint_chars(fp@.take(i as int)),
        decreases 32 - i,
    {
        let b = fp[i];
        if i > 0 {
            proof {
                reveal_strlit(":");
            }
            res.append(":");
        }
        res.append(hex_digit_str(b / 16));
        res.append(hex_digit_str(b % 16));
        proof {
            assert(fp@.take(i + 1).drop_last() =~= fp@.take(i as int));
            assert(fp@.take(i + 1).last() == b);
            if i == 0 {
                assert(fingerprint_chars(fp@.take(0)) =~= seq![]);
            }
            assert(res@ =~= fingerprint_chars(fp@.take(i + 1)));
        }
        i = i + 1;
    }
    assert(fp@.take(32) =~= fp@);
    res
}

/// The value of an ASCII hex digit (either case), if `c` is one.
pub open spec fn hex_digit_value(c: u8) -> Option<u8> {
    if 0x30 <= c <= 0x39 {
        Some((c - 0x30) as u8)
    } else if 0x41 <= c <= 0x46 {
        Some((c - 0x41 + 10) as u8)
    } else if 0x61 <= c <= 0x66 {
        Some((c - 0x61 + 10) as u8)
    } else {
        None
    }
}

/// Every byte of `d` is a hex digit.
pub open spec fn all_hex(d: Seq<u8>) -> bool {
    forall|i: int| 0 <= i < d.len() ==> (#[trigger] hex_digit_value(d[i])) is Some
}

/// The number that a string of hex digits spells, most significant first.
pub open spec fn hex_value(d: Seq<u8>) -> nat
    decreases d.len(),
{
    if d.len() == 0 {
        0
    } else {
        hex_value(d.drop_last()) * 16 + hex_digit_value(d.last())->Some_0 as nat
    }
}

/// `u8::from_str_radix(part, 16)`: an optional leading `+`, then one or more
/// hex digits (either case, leading zeros allowed) whose value is at most 255.
pub open spec fn parse_hex_u8(p: Seq<u8>) -> Option<u8> {
    if p.len() == 0 {
        None
    } else {
        let d = if p[0] == 0x2B {
            p.drop_first()
        } else {
            p
        };
        if d.len() > 0 && all_hex(d) && hex_value(d) <= 255 {
            Some(hex_value(d) as u8)
        } else {
            None
        }
    }
}

/// The pieces of `b` between colons, as `str::split(':')` yields them
/// (empty pieces included; always at least one piece).
pub open spec fn split_colon(b: Seq<u8>) -> Seq<Seq<u8>>
    decreases b.len(),
{
    if b.len() == 0 {
        seq![seq![]]
    } else {
        let p = split_colon(b.drop_last());
        if b.last() == 0x3A {
            p.push(seq![])
        } else {
            p.update(p.len() - 1, p.last().push(b.last()))
        }
    }
}

pub proof fn lemma_split_colon_nonempty(b: Seq<u8>)
    ensures
        split_colon(b).len() >= 1,
    decreases b.len(),
{
    if b.len() > 0 {
        lemma_split_colon_nonempty(b.drop_last());
    }
}

/// Why a fingerprint string was refused.
pub enum FingerprintError {
    /// The string does not split into exactly 32 colon-separated pieces.
    WrongPartCount,
    /// A piece is not a hex byte.
    InvalidHexByte,
}

/// Parsing a colon-separated hex fingerprint from its UTF-8 bytes: 32
/// pieces, each a hex byte in the sense of `parse_hex_u8`.
pub open spec fn parse_fingerprint(b: Seq<u8>) -> Result<Seq<u8>, FingerprintError> {
    let parts = split_colon(b);
    if parts.len() != 32 {
        Err(FingerprintError::WrongPartCount)
    } else if exists|i: int| 0 <= i < 32 && (#[trigger] parse_hex_u8(parts[i])) is None {
        Err(FingerprintError::InvalidHexByte)
    } else {
        Ok(Seq::new(32, |i: int| parse_hex_u8(parts[i])->Some_0))
    }
}

/// The message the parser reports for each refusal.
pub open spec fn fingerprint_error_message(e: FingerprintError) -> Seq<char> {
    match e {
        FingerprintError::WrongPartCount => "fingerprint must contain exactly 32 hex bytes separated by colons"@,
        FingerprintError::InvalidHexByte => "invalid hex byte"@,
    }
}

/// The value of a hex digit byte.
fn hex_digit(c: u8) -> (r: Option<u8>)
    ensures
        r == hex_digit_value(c),
{
    if 0x30 <= c && c <= 0x39 {
        Some(c - 0x30)
    } else if 0x41 <= c && c <= 0x46 {
        Some(c - 0x41 + 10)
    } else if 0x61 <= c && c <= 0x66 {
        Some(c - 0x61 + 10)
    } else {
        None
    }
}

/// Parses `b[from..to]` as `u8::from_str_radix(.., 16)` does.
fn parse_hex_u8_range(b: &[u8], from: usize, to: usize) -> (r: Option<u8>)
    requires
        from <= to <= b@.len(),
    ensures
        r == parse_hex_u8(b@.subrange(from as int, to as int)),
{
    let ghost p = b@.subrange(from as int, to as int);
    if from == to {
        return None;
    }
    let mut j = from;
    if b[from] == 0x2B {
        j = from + 1;
    }
    let ghost d = b@.subrange(j as int, to as int);
    proof {
        if b[from as int] == 0x2B {
            assert(d =~= p.drop_first());
        } else {
            assert(d =~= p);
        }
    }
    if j == to {
        return None;
    }
    let mut acc: u32 = 0;
    let mut k = j;
    assert(b@.subrange(j as int, j as int) =~= Seq::<u8>::empty());
    while k < to
        invariant
            from <= j <= k <= to <= b@.len(),
            from < to,
            p == b@.subrange(from as int, to as int),
            d == b@.subrange(j as int, to as int),
            p[0] == 0x2B ==> d == p.drop_first(),
            p[0] != 0x2B ==> d == p,
            d.len() > 0,
            all_hex(b@.subrange(j as int, k as int)),
            acc <= 256,
            acc < 256 ==> acc == hex_value(b@.subrange(j as int, k as int)),
            acc == 256 ==> hex_value(b@.subrange(j as int, k as int)) >= 256,
        decreases to - k,
    {
        let ghost prev = b@.subrange(j as int, k as int);
        let ghost next = b@.subrange(j as int, k + 1);
        assert(next.drop_last() =~= prev);
        assert(next.last() == b@[k as int]);
        match hex_digit(b[k]) {
            None => {
                assert(d[k - j] == b@[k as int]);
                assert(hex_digit_value(d[k - j]) is None);
                assert(!all_hex(d));
                assert(parse_hex_u8(p) is None);
                return None;
            },
            Some(v) => {
                if acc < 256 {
                    let t = acc * 16 + v as u32;
                    acc = if t > 256 {
                        256
                    } else {
                        t
                    };
                }
                assert forall|i: int| 0 <= i < next.len() implies (#[trigger] hex_digit_value(next[i])) is Some by {
                    if i < prev.len() {
                        assert(next[i] == prev[i]);
                    }
                }
            },
        }
        k = k + 1;
    }
    assert(b@.subrange(j as int, k as int) =~= d);
    if acc <= 255 {
        Some(acc as u8)
    } else {
        None
    }
}

/// Parses a colon-separated hex string into a 32-byte fingerprint. Each
/// piece is read as `u8::from_str_radix(piece, 16)` reads it.
pub fn string_to_fingerprint(s: &str) -> (r: Result<[u8; 32], &'static str>)
    ensures
        r matches Ok(fp) ==> parse_fingerprint(s.spec_bytes()) == Ok::<Seq<u8>, FingerprintError>(fp@),
        r matches Err(e) ==> parse_fingerprint(s.spec_bytes()) is Err && e@ == fingerprint_error_message(
            parse_fingerprint(s.spec_bytes())->Err_0,
        ),
{
    let b = s.as_bytes();
    let n = b.len();
    let ghost bs = b@;
    let mut starts: Vec<usize> = Vec::new();
    let mut ends: Vec<usize> = Vec::new();
    let mut cur: usize = 0;
    let mut i: usize = 0;
    assert(bs.take(0) =~= Seq::<u8>::empty());
    assert(bs.subrange(0, 0) =~= Seq::<u8>::empty());
    while i < n
        invariant
            n == bs.len(),
            b@ == bs,
            cur <= i <= n,
            starts@.len() == ends@.len(),
            split_colon(bs.take(i as int)).len() == starts@.len() + 1,
            forall|j: int| 0 <= j < starts@.len() ==> #[trigger] starts@[j] <= #[trigger] ends@[j],
            forall|j: int| 0 <= j < ends@.len() ==> #[trigger] ends@[j] <= i,
            forall|j: int|
                0 <= j < starts@.len() ==> (#[trigger] split_colon(bs.take(i as int))[j]) == bs.subrange(
                    starts@[j] as int,
                    ends@[j] as int,
                ),
            split_colon(bs.take(i as int)).last() == bs.subrange(cur as int, i as int),
        decreases n - i,
    {
        let ghost prev = split_colon(bs.take(i as int));
        let ghost old_starts = starts@;
        let ghost old_ends = ends@;
        let ghost old_cur = cur;
        assert(bs.take(i + 1).drop_last() =~= bs.take(i as int));
        assert(bs.take(i + 1).last() == bs[i as int]);
        if b[i] == 0x3A {
            starts.push(cur);
            ends.push(i);
            cur = i + 1;
            let ghost next = split_colon(bs.take(i + 1));
            assert(next == prev.push(seq![]));
            assert forall|j: int| #![trigger starts@[j]] 0 <= j < starts@.len() implies starts@[j] <= ends@[j]
                && ends@[j] <= i + 1 by {
                if j < old_starts.len() {
                    assert(starts@[j] == old_starts[j]);
                    assert(ends@[j] == old_ends[j]);
                }
            }
            assert(bs.subrange(cur as int, i + 1) =~= Seq::<u8>::empty());
            assert forall|j: int| 0 <= j < starts@.len() implies (#[trigger] split_colon(
                bs.take(i + 1),
            )[j]) == bs.subrange(starts@[j] as int, ends@[j] as int) by {
                if j < old_starts.len() {
                    assert(starts@[j] == old_starts[j]);
                    assert(ends@[j] == old_ends[j]);
                    assert(next[j] == prev[j]);
                } else {
                    assert(next[j] == prev.last());
                }
            }
        } else {
            let ghost next = split_colon(bs.take(i + 1));
            assert(next == prev.update(prev.len() - 1, prev.last().push(bs[i as int])));
            assert(bs.subrange(cur as int, i + 1) =~= bs.subrange(cur as int, i as int).push(bs[i as int]));
            assert forall|j: int| #![trigger starts@[j]] 0 <= j < starts@.len() implies starts@[j] <= ends@[j]
                && ends@[j] <= i + 1 by {
                assert(starts@[j] == old_starts[j]);
            }
            assert forall|j: int| 0 <= j < starts@.len() implies (#[trigger] split_colon(
                bs.take(i + 1),
            )[j]) == bs.subrange(starts@[j] as int, ends@[j] as int) by {
                assert(next[j] == prev[j]);
            }
        }
        i = i + 1;
    }
    let ghost old_starts = starts@;
    let ghost old_ends = ends@;
    starts.push(cur);
    ends.push(n);
    assert(bs.take(n as int) =~= bs);
    let ghost parts = split_colon(bs);
    assert(parts == split_colon(bs.take(n as int)));
    assert(parts.len() == starts@.len());
    assert forall|j: int| 0 <= j < starts@.len() implies #[trigger] parts[j] == bs.subrange(
        starts@[j] as int,
        ends@[j] as int,
    ) by {
        if j < old_starts.len() {
            assert(starts@[j] == old_starts[j]);
            assert(ends@[j] == old_ends[j]);
            assert(split_colon(bs.take(n as int))[j] == bs.subrange(old_starts[j] as int, old_ends[j] as int));
        } else {
            assert(parts[j] == parts.last());
        }
    }
    if starts.len() != 32 {
        return Err("fingerprint must contain exactly 32 hex bytes separated by colons");
    }
    let mut fp = [0u8; 32];
    let mut k: usize = 0;
    while k < 32
        invariant
            0 <= k <= 32,
            starts@.len() == 32,
            ends@.len() == 32,
            b@ == bs,
            parts == split_colon(bs),
            parts.len() == 32,
            bs == s.spec_bytes(),
            forall|j: int| #![trigger starts@[j]] 0 <= j < 32 ==> starts@[j] <= ends@[j] && ends@[j] <= bs.len(),
            forall|j: int|
                0 <= j < 32 ==> #[trigger] parts[j] == bs.subrange(starts@[j] as int, ends@[j] as int),
            forall|j: int| 0 <= j < k ==> parse_hex_u8(#[trigger] parts[j]) == Some(fp@[j]),
        decreases 32 - k,
    {
        match parse_hex_u8_range(b, starts[k], ends[k]) {
            None => {
                assert(parse_hex_u8(parts[k as int]) is None);
                assert(parse_fingerprint(bs) is Err);
                assert(bs == s.spec_bytes());
                return Err("invalid hex byte");
            },
            Some(v) => {
                fp[k] = v;
            },
        }
        k = k + 1;
    }
    assert(fp@ =~= Seq::new(32, |i: int| parse_hex_u8(parts[i])->Some_0));
    Ok(fp)
}

/// The bytes of a string of ASCII characters.
pub open spec fn ascii_of(cs: Seq<char>) -> Seq<u8> {
    Seq::new(cs.len(), |i: int| cs[i] as u8)
}

proof fn lemma_hex_upper_char(n: u8)
    requires
        n < 16,
    ensures
        '\0' <= hex_upper_char(n) <= '\u{7f}',
        hex_upper_char(n) as u8 != 0x3A,
        hex_upper_char(n) as u8 != 0x2B,
        hex_digit_value(hex_upper_char(n) as u8) == Some(n),
{
}

proof fn lemma_fingerprint_chars_ascii(fp: Seq<u8>)
    ensures
        is_ascii_chars(fingerprint_chars(fp)),
    decreases fp.len(),
{
    if fp.len() == 1 {
        lemma_hex_upper_char(fp[0] / 16);
        lemma_hex_upper_char(fp[0] % 16);
    } else if fp.len() > 1 {
        lemma_fingerprint_chars_ascii(fp.drop_last());
        lemma_hex_upper_char(fp.last() / 16);
        lemma_hex_upper_char(fp.last() % 16);
        let a = fingerprint_chars(fp.drop_last());
        let c = fingerprint_chars(fp);
        assert forall|i| 0 <= i < c.len() implies '\0' <= #[trigger] c[i] <= '\u{7f}' by {
            if i < a.len() {
                assert(c[i] == a[i]);
            }
        }
    }
}

proof fn lemma_split_no_colon(y: Seq<u8>)
    requires
        forall|i: int| 0 <= i < y.len() ==> y[i] != 0x3A,
    ensures
        split_colon(y) == seq![y],
    decreases y.len(),
{
    if y.len() > 0 {
        lemma_split_no_colon(y.drop_last());
        assert(y.drop_last().push(y.last()) =~= y);
        assert(seq![y.drop_last()].update(0, y.drop_last().push(y.last())) =~= seq![y]);
    } else {
        assert(y =~= Seq::<u8>::empty());
    }
}

proof fn lemma_split_after_colon(a: Seq<u8>, y: Seq<u8>)
    requires
        forall|i: int| 0 <= i < y.len() ==> y[i] != 0x3A,
    ensures
        split_colon(a + seq![0x3Au8] + y) == split_colon(a).push(y),
    decreases y.len(),
{
    let w = a + seq![0x3Au8] + y;
    if y.len() == 0 {
        assert(w.drop_last() =~= a);
        assert(y =~= Seq::<u8>::empty());
    } else {
        let y0 = y.drop_last();
        lemma_split_after_colon(a, y0);
        assert(w.drop_last() =~= a + seq![0x3Au8] + y0);
        assert(y0.push(y.last()) =~= y);
        assert(split_colon(a).push(y0).update(split_colon(a).len() as int, y0.push(y.last()))
            =~= split_colon(a).push(y));
        assert(y0.push(y.last()) =~= y);
    }
}

proof fn lemma_fingerprint_split(fp: Seq<u8>)
    requires
        fp.len() >= 1,
    ensures
        split_colon(ascii_of(fingerprint_chars(fp))) == Seq::new(
            fp.len(),
            |i: int| ascii_of(byte_hex(fp[i])),
        ),
    decreases fp.len(),
{
    lemma_hex_upper_char(fp.last() / 16);
    lemma_hex_upper_char(fp.last() % 16);
    let tail = ascii_of(byte_hex(fp.last()));
    if fp.len() == 1 {
        lemma_split_no_colon(tail);
        assert(Seq::new(fp.len(), |i: int| ascii_of(byte_hex(fp[i]))) =~= seq![tail]);
    } else {
        let front = fp.drop_last();
        lemma_fingerprint_split(front);
        assert(ascii_of(fingerprint_chars(fp)) =~= ascii_of(fingerprint_chars(front)) + seq![0x3Au8] + tail);
        lemma_split_after_colon(ascii_of(fingerprint_chars(front)), tail);
        assert(Seq::new(front.len(), |i: int| ascii_of(byte_hex(front[i]))).push(tail) =~= Seq::new(
            fp.len(),
            |i: int| ascii_of(byte_hex(fp[i])),
        ));
    }
}

proof fn lemma_byte_hex_parses(b: u8)
    ensures
        parse_hex_u8(ascii_of(byte_hex(b))) == Some(b),
{
    lemma_hex_upper_char(b / 16);
    lemma_hex_upper_char(b % 16);
    let d = ascii_of(byte_hex(b));
    let d0 = d.drop_last();
    assert(d0.drop_last() =~= Seq::<u8>::empty());
    assert(d0.last() == d[0]);
    assert(hex_value(d0) == hex_value(d0.drop_last()) * 16 + hex_digit_value(d0.last())->Some_0 as nat);
    assert(hex_value(d0) == (b / 16) as nat);
    assert(all_hex(d));
}

/// A fingerprint printed by `fingerprint_to_string` parses back with
/// `string_to_fingerprint` to the same 32 bytes, and the printed form has
/// exactly 32 colon-separated pieces.
pub proof fn lemma_fingerprint_string_roundtrip(fp: Seq<u8>)
    requires
        fp.len() == 32,
    ensures
        split_colon(encode_utf8(fingerprint_chars(fp))).len() == 32,
        parse_fingerprint(encode_utf8(fingerprint_chars(fp))) == Ok::<Seq<u8>, FingerprintError>(fp),
{
    let cs = fingerprint_chars(fp);
    lemma_fingerprint_chars_ascii(fp);
    is_ascii_chars_encode_utf8(cs);
    assert(encode_utf8(cs) =~= ascii_of(cs));
    lemma_fingerprint_split(fp);
    let parts = split_colon(ascii_of(cs));
    assert forall|i: int| 0 <= i < 32 implies #[trigger] parse_hex_u8(parts[i]) == Some(fp[i]) by {
        lemma_byte_hex_parses(fp[i]);
    }
    assert(Seq::new(32, |i: int| parse_hex_u8(parts[i])->Some_0) =~= fp);
}

/// The bytes hashed for a pairing PIN: the two fingerprints, the
/// lexicographically smaller one first, so both sides hash the same bytes.
pub open spec fn pin_transcript(a: Seq<u8>, b: Seq<u8>) -> Seq<u8> {
    if lex_le(a, b) {
        a + b
    } else {
        b + a
    }
}

/// A six-digit PIN from a digest: its first four bytes read big-endian, modulo 1,000,000.
pub open spec fn pin_from_digest_spec(d: Seq<u8>) -> u32 {
    (from_be32(d.subrange(0, 4)) % 1_000_000) as u32
}

/// The pairing PIN of two fingerprints.
pub open spec fn pairing_pin_spec(a: Seq<u8>, b: Seq<u8>) -> u32 {
    pin_from_digest_spec(sha256(pin_transcript(a, b)))
}

/// The bytes that the pairing PIN hashes: both fingerprints, smaller first.
pub fn pairing_transcript(client_fp: &[u8; 32], server_fp: &[u8; 32]) -> (r: Vec<u8>)
    ensures
        r@ == pin_transcript(client_fp@, server_fp@),
{
    let mut r: Vec<u8> = Vec::with_capacity(64);
    if fingerprint_le(client_fp, server_fp) {
        crate::wire::push_bytes(&mut r, client_fp.as_slice());
        crate::wire::push_bytes(&mut r, server_fp.as_slice());
    } else {
        crate::wire::push_bytes(&mut r, server_fp.as_slice());
        crate::wire::push_bytes(&mut r, client_fp.as_slice());
    }
    r
}

/// The six-digit PIN that a digest maps to.
pub fn pin_from_digest(digest: &[u8; 32]) -> (r: u32)
    ensures
        r == pin_from_digest_spec(digest@),
        r < 1_000_000,
{
    let v = crate::wire::get_u32(digest.as_slice(), 0);
    v % 1_000_000
}

/// Six-digit mutual pairing PIN: SHA-256 of both fingerprints (smaller
/// first), first four digest bytes big-endian, modulo 1,000,000.
pub fn generate_pairing_pin(client_fp: &[u8; 32], server_fp: &[u8; 32]) -> (r: u32)
    ensures
        r == pairing_pin_spec(client_fp@, server_fp@),
        r < 1_000_000,
{
    let transcript = pairing_transcript(client_fp, server_fp);
    let digest = sha256_digest(transcript.as_slice());
    pin_from_digest(&digest)
}

/// The PIN hashes the fingerprint whose first differing byte is smaller
/// first, whichever side is the client: with `a` before `b` at the first
/// position where they differ, both `(a, b)` and `(b, a)` hash `a` then `b`.
pub proof fn lemma_pin_transcript_order(a: Seq<u8>, b: Seq<u8>, i: int)
    requires
        a.len() == b.len(),
        0 <= i < a.len(),
        a.take(i) == b.take(i),
        a[i] < b[i],
    ensures
        pin_transcript(a, b) == a + b,
        pin_transcript(b, a) == a + b,
{
    lemma_lex_le_first_difference(a, b, i);
    lemma_lex_le_first_difference(b, a, i);
}

/// Both sides of a pairing compute the same PIN: swapping the client and
/// server fingerprints does not change it, and it has at most six digits.
pub proof fn lemma_pairing_pin_symmetric(a: Seq<u8>, b: Seq<u8>)
    ensures
        pairing_pin_spec(a, b) == pairing_pin_spec(b, a),
        pairing_pin_spec(a, b) < 1_000_000,
{
    lemma_lex_le_total_antisymmetric(a, b);
    assert(pin_transcript(a, b) == pin_transcript(b, a));
}

} // verus!
