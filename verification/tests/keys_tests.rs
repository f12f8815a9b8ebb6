use rtc_gateway::error::OfferWebSocketError;
use rtc_gateway::keys::{
    derive_srtp_keys, extract_protection_profile, master_key_len, master_salt_len,
    NegotiatedProfile, SrtpProfile,
};

fn material() -> Vec<u8> {
    (0u8..64).collect()
}

#[test]
fn it_derives_keys_for_aes_cm_with_the_salt_rotation() {
    // Key derivation round-trip for SRTP_AES128_CM_SHA1_80: key 16, salt 14.
    // Layout [client_key][server_key][client_salt][server_salt]; each side
    // gets a contiguous key || salt block.
    let p = derive_srtp_keys(SrtpProfile::Aes128CmSha1_80, &material());
    let mut client: Vec<u8> = (0u8..16).collect();
    client.extend(32u8..46);
    let mut server: Vec<u8> = (16u8..32).collect();
    server.extend(46u8..60);
    assert_eq!(p.client_key, client);
    assert_eq!(p.server_key, server);
    assert_eq!(p.client_key.len(), 30);
    assert_eq!(p.server_key.len(), 30);
}

#[test]
fn it_derives_keys_for_aes_gcm_with_the_salt_rotation() {
    // SRTP_AEAD_AES_128_GCM: key 16, salt 12.
    let p = derive_srtp_keys(SrtpProfile::AeadAes128Gcm, &material());
    let mut client: Vec<u8> = (0u8..16).collect();
    client.extend(32u8..44);
    let mut server: Vec<u8> = (16u8..32).collect();
    server.extend(44u8..56);
    assert_eq!(p.client_key, client);
    assert_eq!(p.server_key, server);
    assert_eq!(p.client_key.len(), 28);
    assert_eq!(p.server_key.len(), 28);
}

#[test]
fn it_reports_the_profile_parameters() {
    assert_eq!(master_key_len(SrtpProfile::Aes128CmSha1_80), 16);
    assert_eq!(master_salt_len(SrtpProfile::Aes128CmSha1_80), 14);
    assert_eq!(master_key_len(SrtpProfile::AeadAes128Gcm), 16);
    assert_eq!(master_salt_len(SrtpProfile::AeadAes128Gcm), 12);
}

#[test]
fn it_fails_without_a_negotiated_profile() {
    let r = extract_protection_profile(None, &material());
    assert!(matches!(r, Err(OfferWebSocketError::NoProtectionProfile)));
}

#[test]
fn it_fails_on_an_unrecognized_profile() {
    let r = extract_protection_profile(Some(NegotiatedProfile::Unrecognized), &material());
    assert!(matches!(
        r,
        Err(OfferWebSocketError::InvalidProtectionProfile)
    ));
}

#[test]
fn it_extracts_keys_for_a_known_profile() {
    let p = extract_protection_profile(Some(NegotiatedProfile::Aes128CmSha1_80), &material())
        .unwrap();
    assert_eq!(p.kind, SrtpProfile::Aes128CmSha1_80);
    assert_eq!(p.client_key[0], 0);
    assert_eq!(p.client_key[16], 32);
    assert_eq!(p.server_key[0], 16);
    assert_eq!(p.server_key[16], 46);
}
