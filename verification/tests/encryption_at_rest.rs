use aes_gcm::aead::{Aead, KeyInit};
use aes_gcm::{Aes256Gcm, Key, Nonce};
use trueshot_server::at_rest::{
    build_nonce, decode_legacy_bounded, decode_legacy_stream, decrypted_file_name, encrypt_tree_step,
    encryption_required, file_is_stable, is_encrypted_name, master_key_from_base64, policy_for_project,
    project_marker_path, require_master_key, unwrap_project_key, wrap_project_key, AtRestError, EncryptStep,
    MasterKey, PrivacyConfig, ProjectKeyStore,
};

const CHUNK: usize = 1024 * 1024;

fn legacy_tse1(key: &[u8; 32], payload: &[u8]) -> Vec<u8> {
    let nonce_prefix = [0x19u8; 8];
    let cipher = Aes256Gcm::new(Key::<Aes256Gcm>::from_slice(key));
    let mut out: Vec<u8> = Vec::new();
    out.extend_from_slice(b"TSE1");
    out.push(1);
    out.extend_from_slice(&(CHUNK as u32).to_le_bytes());
    out.extend_from_slice(&nonce_prefix);
    for (index, chunk) in payload.chunks(CHUNK).enumerate() {
        let ciphertext = cipher
            .encrypt(Nonce::from_slice(&build_nonce(&nonce_prefix, index as u32)), chunk)
            .unwrap();
        out.extend_from_slice(&(ciphertext.len() as u32).to_le_bytes());
        out.extend_from_slice(&ciphertext);
    }
    out
}

fn privacy(encrypt: Option<bool>) -> PrivacyConfig {
    PrivacyConfig {
        encrypt_at_rest: encrypt,
        encrypt_scopes: None,
        encrypt_min_age_seconds: None,
        encrypt_sweep_interval_seconds: None,
        encryption_master_key_path: None,
    }
}

#[test]
fn legacy_tse1_remains_bounded_read_compatible() {
    let payload = br#"{"legacy":true}"#;
    let key = [0x28u8; 32];
    let encrypted = legacy_tse1(&key, payload);
    assert_eq!(decode_legacy_bounded(&encrypted, &key, payload.len()).unwrap(), payload.to_vec());
}

#[test]
fn legacy_read_refuses_plaintext_over_the_limit() {
    let payload = br#"{"legacy":true}"#;
    let key = [0x28u8; 32];
    let encrypted = legacy_tse1(&key, payload);
    assert_eq!(
        decode_legacy_bounded(&encrypted, &key, payload.len() - 1),
        Err(AtRestError::ExceedsReadLimit(payload.len() - 1))
    );
}

#[test]
fn legacy_read_detects_tampering_and_bad_headers() {
    let key = [0x28u8; 32];
    let mut encrypted = legacy_tse1(&key, b"payload");
    let last = encrypted.len() - 1;
    encrypted[last] ^= 1;
    assert_eq!(decode_legacy_bounded(&encrypted, &key, 100), Err(AtRestError::DecryptionFailed));
    assert_eq!(decode_legacy_bounded(b"TSE", &key, 100), Err(AtRestError::Truncated));
    assert_eq!(decode_legacy_bounded(b"XXXX", &key, 100), Err(AtRestError::InvalidHeader));
    let mut bad_version = legacy_tse1(&key, b"p");
    bad_version[4] = 2;
    assert_eq!(decode_legacy_bounded(&bad_version, &key, 100), Err(AtRestError::UnsupportedVersion));
    let wrong_key = [0x29u8; 32];
    assert_eq!(
        decode_legacy_bounded(&legacy_tse1(&key, b"p"), &wrong_key, 100),
        Err(AtRestError::DecryptionFailed)
    );
}

#[test]
fn legacy_stream_decodes_every_chunk() {
    let key = [7u8; 32];
    let payload: Vec<u8> = (0..(CHUNK + 10)).map(|i| (i % 251) as u8).collect();
    let encrypted = legacy_tse1(&key, &payload);
    let stream = decode_legacy_stream(&encrypted, &key).unwrap();
    assert_eq!(stream.plaintext, payload);
    assert_eq!(stream.error, None);
}

#[test]
fn nonce_is_prefix_then_big_endian_counter() {
    assert_eq!(build_nonce(&[1, 2, 3, 4, 5, 6, 7, 8], 0x0102_0304), [1, 2, 3, 4, 5, 6, 7, 8, 1, 2, 3, 4]);
}

#[test]
fn wrapped_project_keys_unwrap_to_the_same_key() {
    let master = MasterKey::from_bytes(vec![9u8; 32]).unwrap();
    let project_key = [0x55u8; 32];
    let record = wrap_project_key(&master, &project_key).unwrap();
    assert_eq!(record.version, 1);
    assert_eq!(unwrap_project_key(&master, &record).unwrap(), project_key);
    let other = MasterKey::from_bytes(vec![8u8; 32]).unwrap();
    assert!(unwrap_project_key(&other, &record).is_err());
}

#[test]
fn master_keys_must_be_32_bytes() {
    assert!(matches!(MasterKey::from_bytes(vec![1u8; 31]), Err(AtRestError::InvalidMasterKeyLength)));
    assert!(master_key_from_base64("not base64!").is_err());
    let ok = master_key_from_base64("AAAAAAAAAAAAAAAAAAAAAAAAAAAAAAAAAAAAAAAAAAA=").unwrap();
    assert_eq!(ok.as_bytes(), &[0u8; 32]);
}

#[test]
fn missing_master_key_is_refused_when_encryption_needs_one() {
    assert!(matches!(require_master_key(Ok(None)), Err(AtRestError::MasterKeyRequired)));
    let key = MasterKey::from_bytes(vec![3u8; 32]).unwrap();
    assert_eq!(require_master_key(Ok(Some(key))).unwrap().as_bytes(), &[3u8; 32]);
}

#[test]
fn key_store_paths_live_under_the_security_directory() {
    let store = ProjectKeyStore::new("/data/projects", MasterKey::from_bytes(vec![1u8; 32]).unwrap());
    assert_eq!(store.legacy_key_path("p1"), "/data/projects/_security/keys/p1.key");
    assert_eq!(store.wrapped_key_path("p1"), "/data/projects/_security/keys/p1.json");
    assert_eq!(project_marker_path("/data/projects", "p1"), "/data/projects/_security/encrypted/p1.json");
}

#[test]
fn encryption_is_required_by_configuration_or_marker() {
    assert!(encryption_required(&privacy(Some(true)), false));
    assert!(encryption_required(&privacy(None), true));
    assert!(!encryption_required(&privacy(Some(false)), false));
    let policy = policy_for_project(None, &privacy(Some(true)), false).unwrap();
    assert_eq!(policy.scopes, vec!["raw".to_string(), "processed".to_string(), "output".to_string()]);
    assert_eq!(policy.min_age_seconds, 60);
    assert!(policy_for_project(None, &privacy(None), false).is_none());
    let marked = policy_for_project(Some(vec!["raw".to_string()]), &privacy(None), true).unwrap();
    assert_eq!(marked.scopes, vec!["raw".to_string()]);
}

#[test]
fn encrypted_names_and_their_plaintext_names() {
    assert!(is_encrypted_name("a.json.enc"));
    assert!(!is_encrypted_name("a.json"));
    assert_eq!(decrypted_file_name("a.json.enc"), Some("a.json".to_string()));
    assert!(file_is_stable(0, None));
    assert!(!file_is_stable(60, Some(10)));
    assert!(file_is_stable(60, Some(60)));
}

#[test]
fn sweep_steps_follow_the_file_state() {
    assert_eq!(encrypt_tree_step(true, false, false, true), EncryptStep::SkipEncrypted);
    assert_eq!(encrypt_tree_step(false, true, false, true), EncryptStep::MismatchedDestination);
    assert_eq!(encrypt_tree_step(false, true, true, true), EncryptStep::RemoveCommittedPlaintext);
}
