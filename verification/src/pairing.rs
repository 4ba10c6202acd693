//! The pairing flow around the TLS handshake: the PIN each side shows, the
//! operator's answer, and pinning the peer's fingerprint once confirmed.

use vstd::prelude::*;
use vstd::utf8::encode_utf8;

use crate::companion::{ClientEvent, ClientEventView};
use crate::config::{trusted_fingerprint_set, DeviceConfig};
use crate::crypto::{
    compute_fingerprint, fingerprint_chars, fingerprint_to_string, generate_pairing_pin,
    lemma_fingerprint_string_roundtrip, pairing_pin_spec, parse_fingerprint, sha256,
    FingerprintError,
};

verus! {

/// Why the companion's handshake could not go on.
#[derive(Debug, Clone, Copy, PartialEq, Eq)]
pub enum PairingError {
    /// In pairing mode, the verifier recorded no peer certificate.
    PeerCertificateNotCaptured,
}

/// What the companion reports once its handshake completes: in pairing mode
/// the PIN of its own certificate's fingerprint and the captured host
/// fingerprint (an error if none was captured), otherwise `Connected`.
pub fn handshake_event(is_pairing: bool, peer_fingerprint: Option<[u8; 32]>, own_cert_der: &[u8]) -> (r:
    Result<ClientEvent, PairingError>)
    ensures
        !is_pairing ==> (r matches Ok(e) && e@ == ClientEventView::Connected),
        is_pairing && peer_fingerprint is None ==> r == Err::<ClientEvent, PairingError>(
            PairingError::PeerCertificateNotCaptured,
        ),
        is_pairing && peer_fingerprint is Some ==> (r matches Ok(e) && e@
            == ClientEventView::PairingPinGenerated(
            pairing_pin_spec(sha256(own_cert_der@), peer_fingerprint->Some_0@),
        )),
{
    if !is_pairing {
        return Ok(ClientEvent::Connected);
    }
    match peer_fingerprint {
        Some(fp) => {
            let own_fp = compute_fingerprint(own_cert_der);
            Ok(ClientEvent::PairingPinGenerated(generate_pairing_pin(&own_fp, &fp)))
        },
        None => Err(PairingError::PeerCertificateNotCaptured),
    }
}

/// The PIN the host shows for a pairing client: client fingerprint and the
/// fingerprint of the host's own certificate.
pub fn host_pairing_pin(client_fingerprint: &[u8; 32], own_cert_der: &[u8]) -> (r: u32)
    ensures
        r == pairing_pin_spec(client_fingerprint@, sha256(own_cert_der@)),
        r < 1_000_000,
{
    let own_fp = compute_fingerprint(own_cert_der);
    generate_pairing_pin(client_fingerprint, &own_fp)
}

/// A character with the Unicode `White_Space` property.
pub open spec fn is_white_space(c: char) -> bool {
    ||| '\u{9}' <= c <= '\u{d}'
    ||| c == ' '
    ||| c == '\u{85}'
    ||| c == '\u{a0}'
    ||| c == '\u{1680}'
    ||| '\u{2000}' <= c <= '\u{200a}'
    ||| c == '\u{2028}'
    ||| c == '\u{2029}'
    ||| c == '\u{202f}'
    ||| c == '\u{205f}'
    ||| c == '\u{3000}'
}

/// `s` without its leading white space.
pub open spec fn trim_start(s: Seq<char>) -> Seq<char>
    decreases s.len(),
{
    if s.len() > 0 && is_white_space(s[0]) {
        trim_start(s.drop_first())
    } else {
        s
    }
}

/// `s` without its trailing white space.
pub open spec fn trim_end(s: Seq<char>) -> Seq<char>
    decreases s.len(),
{
    if s.len() > 0 && is_white_space(s.last()) {
        trim_end(s.drop_last())
    } else {
        s
    }
}

/// `s` without leading and trailing white space.
pub open spec fn trimmed(s: Seq<char>) -> Seq<char> {
    trim_end(trim_start(s))
}

/// The lower-case form of a string.
pub uninterp spec fn lowercased(s: Seq<char>) -> Seq<char>;

/// `s` without leading and trailing whitespace.
///
/// Calls `str::trim`, which its documentation describes as removing leading
/// and trailing characters with the Unicode `White_Space` property; the
/// contract states exactly that.
#[verifier::external_body]
fn trim_str(s: &str) -> (r: &str)
    ensures
        r@ == trimmed(s@),
{
    s.trim()
}

/// The lower-case form of `s`.
///
/// Calls `str::to_lowercase` (Unicode lower-case mapping); the result is
/// named `lowercased(s)`, a function of `s` alone.
#[verifier::external_body]
fn lowercase_str(s: &str) -> (r: String)
    ensures
        r@ == lowercased(s@),
{
    s.to_lowercase()
}

/// Whether an operator's answer to "Do you trust this device? (y/n)" is a
/// yes: `y` or `yes` after trimming and lower-casing.
pub fn is_affirmative(answer: &str) -> (r: bool)
    ensures
        r == (lowercased(trimmed(answer@)) == "y"@ || lowercased(trimmed(answer@)) == "yes"@),
{
    let t = lowercase_str(trim_str(answer));
    let y = "y".to_owned();
    let yes = "yes".to_owned();
    t == y || t == yes
}

impl DeviceConfig {
    /// Pins a peer: stores its fingerprint, printed as colon-separated hex,
    /// under `peer_name`.
    pub fn pin_peer(&mut self, peer_name: &str, fingerprint: &[u8; 32])
        ensures
            final(self).trusted_peers@ == old(self).trusted_peers@.insert(
                peer_name@,
                fingerprint_chars(fingerprint@),
            ),
            final(self).device_name == old(self).device_name,
            final(self).cert_pem == old(self).cert_pem,
            final(self).key_pem == old(self).key_pem,
    {
        let fp_str = fingerprint_to_string(fingerprint);
        self.add_trusted_peer(peer_name, fp_str.as_str());
    }
}

/// Trust on first use: once a peer's fingerprint is pinned, the set of
/// trusted fingerprints contains it, so a later normal-mode check of the
/// same certificate accepts it.
pub proof fn lemma_pinned_peer_is_trusted(m: Map<Seq<char>, Seq<char>>, name: Seq<char>, fp: Seq<u8>)
    requires
        fp.len() == 32,
    ensures
        trusted_fingerprint_set(m.insert(name, fingerprint_chars(fp))).contains(fp),
{
    lemma_fingerprint_string_roundtrip(fp);
    let m2 = m.insert(name, fingerprint_chars(fp));
    assert(m2.dom().contains(name) && parse_fingerprint(encode_utf8(m2[name])) == Ok::<
        Seq<u8>,
        FingerprintError,
    >(fp));
}

/// Revocation: after removing a peer, a fingerprint that no other peer's
/// string parses to is no longer trusted.
pub proof fn lemma_removed_peer_is_untrusted(m: Map<Seq<char>, Seq<char>>, name: Seq<char>, fp: Seq<u8>)
    requires
        forall|k: Seq<char>|
            #![trigger m[k]]
            m.dom().contains(k) && k != name ==> parse_fingerprint(encode_utf8(m[k])) != Ok::<
                Seq<u8>,
                FingerprintError,
            >(fp),
    ensures
        !trusted_fingerprint_set(m.remove(name)).contains(fp),
{
    let m2 = m.remove(name);
    if trusted_fingerprint_set(m2).contains(fp) {
        let k = choose|k: Seq<char>|
            m2.dom().contains(k) && #[trigger] parse_fingerprint(encode_utf8(m2[k])) == Ok::<
                Seq<u8>,
                FingerprintError,
            >(fp);
        assert(m[k] == m2[k]);
    }
}

} // verus!
