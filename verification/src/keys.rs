use vstd::prelude::*;
use crate::bytes::sub_bytes;
use crate::bytes::append_bytes;
use crate::error::OfferWebSocketError;

verus! {

/// An SRTP protection profile this gateway can negotiate.
#[derive(Debug, Clone, Copy, PartialEq, Eq, Structural)]
pub enum SrtpProfile {
    Aes128CmSha1_80,
    AeadAes128Gcm,
}

/// What the DTLS layer reports as the negotiated SRTP profile: one of the two
/// profiles this gateway understands, or something it does not.
#[derive(Debug, Clone, Copy, PartialEq, Eq, Structural)]
pub enum NegotiatedProfile {
    Aes128CmSha1_80,
    AeadAes128Gcm,
    Unrecognized,
}

/// Master key length in bytes of a profile.
pub open spec fn spec_key_len(p: SrtpProfile) -> int {
    16
}

/// Master salt length in bytes of a profile.
pub open spec fn spec_salt_len(p: SrtpProfile) -> int {
    match p {
        SrtpProfile::Aes128CmSha1_80 => 14,
        SrtpProfile::AeadAes128Gcm => 12,
    }
}

/// Master key length in bytes of a profile.
pub fn master_key_len(p: SrtpProfile) -> (n: usize)
    ensures
        n == spec_key_len(p),
{
    16
}

/// Master salt length in bytes of a profile.
pub fn master_salt_len(p: SrtpProfile) -> (n: usize)
    ensures
        n == spec_salt_len(p),
{
    match p {
        SrtpProfile::Aes128CmSha1_80 => 14,
        SrtpProfile::AeadAes128Gcm => 12,
    }
}

/// The client `key || salt` block of exported keying material laid out as
/// `[client_key][server_key][client_salt][server_salt]`.
pub open spec fn spec_client_block(material: Seq<u8>, k: int, s: int) -> Seq<u8> {
    material.subrange(0, k) + material.subrange(2 * k, 2 * k + s)
}

/// The server `key || salt` block of exported keying material laid out as
/// `[client_key][server_key][client_salt][server_salt]`.
pub open spec fn spec_server_block(material: Seq<u8>, k: int, s: int) -> Seq<u8> {
    material.subrange(k, 2 * k) + material.subrange(2 * k + s, 2 * k + 2 * s)
}

/// The SRTP keys of one completed DTLS handshake: the negotiated profile and
/// the two derived `key || salt` blocks.  Produced once, consumed once.
pub struct ProtectionProfile {
    pub kind: SrtpProfile,
    pub client_key: Vec<u8>,
    pub server_key: Vec<u8>,
}

/// Splits DTLS exported keying material into the client and server
/// `key || salt` blocks.
///
/// The material is laid out as `[client_key][server_key][client_salt]
/// [server_salt]`; the salt region is rotated left past the server key so
/// that each side gets one contiguous `key || salt` block.
pub fn derive_srtp_keys(kind: SrtpProfile, material: &Vec<u8>) -> (r: ProtectionProfile)
    requires
        material@.len() >= 2 * (spec_key_len(kind) + spec_salt_len(kind)),
    ensures
        r.kind == kind,
        r.client_key@ == spec_client_block(material@, spec_key_len(kind), spec_salt_len(kind)),
        r.server_key@ == spec_server_block(material@, spec_key_len(kind), spec_salt_len(kind)),
        r.client_key@.len() == spec_key_len(kind) + spec_salt_len(kind),
        r.server_key@.len() == spec_key_len(kind) + spec_salt_len(kind),
{
    let key_len = master_key_len(kind);
    let salt_len = master_salt_len(kind);

    let mut client_key = sub_bytes(material, 0, key_len);
    let client_salt = sub_bytes(material, 2 * key_len, 2 * key_len + salt_len);
    append_bytes(&mut client_key, &client_salt);

    let mut server_key = sub_bytes(material, key_len, 2 * key_len);
    let server_salt = sub_bytes(material, 2 * key_len + salt_len, 2 * key_len + 2 * salt_len);
    append_bytes(&mut server_key, &server_salt);

    ProtectionProfile { kind, client_key, server_key }
}

/// Turns the DTLS layer's report of the negotiated SRTP profile, together
/// with the exported keying material, into this session's protection profile.
///
/// No profile at all is `NoProtectionProfile`; a profile this gateway does
/// not know is `InvalidProtectionProfile`; otherwise the keys are derived
/// per `derive_srtp_keys`.
pub fn extract_protection_profile(selected: Option<NegotiatedProfile>, material: &Vec<u8>) -> (r:
    Result<ProtectionProfile, OfferWebSocketError>)
    requires
        material@.len() >= 60,
    ensures
        match r {
            Ok(p) => {
                &&& selected == Some(profile_choice(p.kind))
                &&& p.client_key@ == spec_client_block(
                    material@,
                    spec_key_len(p.kind),
                    spec_salt_len(p.kind),
                )
                &&& p.server_key@ == spec_server_block(
                    material@,
                    spec_key_len(p.kind),
                    spec_salt_len(p.kind),
                )
            },
            Err(e) => match selected {
                None => e == OfferWebSocketError::NoProtectionProfile,
                Some(c) => c == NegotiatedProfile::Unrecognized && e
                    == OfferWebSocketError::InvalidProtectionProfile,
            },
        },
{
    match selected {
        None => Err(OfferWebSocketError::NoProtectionProfile),
        Some(NegotiatedProfile::Aes128CmSha1_80) => Ok(
            derive_srtp_keys(SrtpProfile::Aes128CmSha1_80, material),
        ),
        Some(NegotiatedProfile::AeadAes128Gcm) => Ok(
            derive_srtp_keys(SrtpProfile::AeadAes128Gcm, material),
        ),
        Some(NegotiatedProfile::Unrecognized) => Err(
            OfferWebSocketError::InvalidProtectionProfile,
        ),
    }
}

/// The `NegotiatedProfile` naming a known profile.
pub open spec fn profile_choice(p: SrtpProfile) -> NegotiatedProfile {
    match p {
        SrtpProfile::Aes128CmSha1_80 => NegotiatedProfile::Aes128CmSha1_80,
        SrtpProfile::AeadAes128Gcm => NegotiatedProfile::AeadAes128Gcm,
    }
}

} // verus!
