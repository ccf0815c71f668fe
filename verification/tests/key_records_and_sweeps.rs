use aes_gcm::aead::{Aead, KeyInit};
use aes_gcm::{Aes256Gcm, Key, Nonce};
use base64::engine::general_purpose::STANDARD;
use base64::Engine;
use trueshot_server::at_rest::{
    decrypt_tree_step, encrypt_in_place_step, key_from_slice, marker_scopes, master_key_from_file_bytes,
    record_decrypt_step, record_encrypt_step, unwrap_project_key, wrap_project_key_with, AtRestError, DecryptStep,
    EncryptStep, EncryptionReport, MasterKey, ProjectKeyStore,
};

#[test]
fn in_place_encryption_checks_stability_before_the_copy() {
    assert_eq!(encrypt_in_place_step(true, false, true, false), EncryptStep::SkipEncrypted);
    assert_eq!(encrypt_in_place_step(false, false, true, true), EncryptStep::NotStable);
    assert_eq!(encrypt_in_place_step(false, true, true, true), EncryptStep::RemoveCommittedPlaintext);
    assert_eq!(encrypt_in_place_step(false, true, true, false), EncryptStep::MismatchedDestination);
    assert_eq!(encrypt_in_place_step(false, true, false, false), EncryptStep::Encrypt);
}

#[test]
fn decryption_sweep_decides_per_file() {
    assert_eq!(decrypt_tree_step(false, false, false), DecryptStep::Ignore);
    assert_eq!(decrypt_tree_step(true, false, false), DecryptStep::Skip);
    assert_eq!(decrypt_tree_step(true, true, true), DecryptStep::Skip);
    assert_eq!(decrypt_tree_step(true, true, false), DecryptStep::Decrypt);
}

#[test]
fn sweep_reports_count_files_and_saturate_bytes() {
    let mut r = EncryptionReport::new();
    record_encrypt_step(&mut r, EncryptStep::Encrypt, (100, 128));
    record_encrypt_step(&mut r, EncryptStep::NotStable, (7, 7));
    record_encrypt_step(&mut r, EncryptStep::MismatchedDestination, (7, 7));
    assert_eq!(
        r,
        EncryptionReport { encrypted_files: 1, decrypted_files: 0, skipped_files: 1, bytes_in: 100, bytes_out: 128 }
    );
    r.bytes_in = u64::MAX - 1;
    record_encrypt_step(&mut r, EncryptStep::Encrypt, (5, 0));
    assert_eq!(r.bytes_in, u64::MAX);
    assert_eq!(r.encrypted_files, 2);

    let mut d = EncryptionReport::new();
    record_decrypt_step(&mut d, DecryptStep::Decrypt, (128, 100));
    record_decrypt_step(&mut d, DecryptStep::Skip, (1, 1));
    record_decrypt_step(&mut d, DecryptStep::Ignore, (1, 1));
    assert_eq!(
        d,
        EncryptionReport { encrypted_files: 0, decrypted_files: 1, skipped_files: 1, bytes_in: 128, bytes_out: 100 }
    );
}

#[test]
fn marker_scopes_keep_string_entries_in_order() {
    assert_eq!(marker_scopes(None), None);
    assert_eq!(marker_scopes(Some(vec![None, None])), None);
    assert_eq!(
        marker_scopes(Some(vec![Some("raw".to_string()), None, Some("output".to_string())])),
        Some(vec!["raw".to_string(), "output".to_string()])
    );
}

#[test]
fn master_key_files_hold_raw_or_base64_keys() {
    let raw = vec![9u8; 32];
    let k = master_key_from_file_bytes(raw.clone()).unwrap();
    assert_eq!(k.as_bytes(), &[9u8; 32]);

    let mut text = STANDARD.encode([7u8; 32]).into_bytes();
    text.push(b'\n');
    let k2 = master_key_from_file_bytes(text).unwrap();
    assert_eq!(k2.as_bytes(), &[7u8; 32]);

    let short = STANDARD.encode([1u8; 16]).into_bytes();
    assert!(matches!(master_key_from_file_bytes(short), Err(AtRestError::InvalidMasterKeyLength)));
    assert!(matches!(master_key_from_file_bytes(b"not base64!".to_vec()), Err(AtRestError::InvalidBase64MasterKey)));
}

#[test]
fn wrapped_records_hold_the_cipher_output_in_base64() {
    let master = MasterKey::from_bytes(vec![3u8; 32]).unwrap();
    let project_key = [5u8; 32];
    let nonce = [1u8, 2, 3, 4, 5, 6, 7, 8, 9, 10, 11, 12];
    let rec = wrap_project_key_with(&master, &project_key, nonce, "2024-01-01T00:00:00+00:00".to_string()).unwrap();
    assert_eq!(rec.version, 1);
    assert_eq!(rec.nonce, STANDARD.encode(nonce));
    let cipher = Aes256Gcm::new(Key::<Aes256Gcm>::from_slice(&[3u8; 32]));
    let sealed = cipher.encrypt(Nonce::from_slice(&nonce), project_key.as_slice()).unwrap();
    assert_eq!(rec.wrapped_key, STANDARD.encode(&sealed));
    assert_eq!(rec.created_at, "2024-01-01T00:00:00+00:00");
    assert_eq!(unwrap_project_key(&master, &rec), Ok(project_key));
}

#[test]
fn key_material_is_copied_byte_for_byte() {
    let bytes: Vec<u8> = (0u8..32).collect();
    let key = key_from_slice(&bytes);
    assert_eq!(key.to_vec(), bytes);
    let master = MasterKey::from_bytes(vec![4u8; 32]).unwrap();
    let store = ProjectKeyStore::new("/data/projects", master);
    assert_eq!(store.root(), "/data/projects/_security/keys");
    assert_eq!(store.master_key().as_bytes(), &[4u8; 32]);
}
