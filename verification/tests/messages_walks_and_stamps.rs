use trueshot_server::at_rest::{
    key_source, legacy_project_key, require_master_key, wrap_project_key, AtRestError, KeySource, MasterKey,
};
use trueshot_server::edits::edit_group;
use trueshot_server::project::{collect_fusion_candidates, rejected_reports, WalkedFile};

#[test]
fn at_rest_errors_carry_their_messages() {
    assert_eq!(
        AtRestError::MasterKeyRequired.message(),
        "Encryption master key is required but not configured"
    );
    assert_eq!(AtRestError::InvalidHeader.message(), "Invalid encryption header");
    assert_eq!(AtRestError::ExceedsReadLimit(31).message(), "Decrypted file exceeds 31 byte read limit");
    assert_eq!(AtRestError::UnsupportedWrappedKeyVersion(2).message(), "Unsupported wrapped key version: 2");
    assert_eq!(AtRestError::TooManyChunks.message(), "Encrypted file contains too many chunks");
    match require_master_key(Ok(None)) {
        Err(e) => assert_eq!(e.message(), "Encryption master key is required but not configured"),
        Ok(_) => panic!("a missing key must be refused"),
    }
}

#[test]
fn project_keys_come_from_the_record_then_the_legacy_file() {
    assert_eq!(key_source(true, true), KeySource::Wrapped);
    assert_eq!(key_source(false, true), KeySource::Legacy);
    assert_eq!(key_source(false, false), KeySource::Fresh);
    assert_eq!(legacy_project_key(&[6u8; 32]), Ok([6u8; 32]));
    assert_eq!(legacy_project_key(&[6u8; 31]), Err("Invalid encryption key length: expected 32 bytes"));
}

#[test]
fn clock_stamps_have_their_documented_shape() {
    let group = edit_group();
    let stamp = group.strip_prefix("edits/").unwrap();
    assert_eq!(stamp.len(), 16);
    assert!(stamp.ends_with('Z'));
    assert_eq!(stamp.as_bytes()[8], b'T');
    let master = MasterKey::from_bytes(vec![1u8; 32]).unwrap();
    let rec = wrap_project_key(&master, &[2u8; 32]).unwrap();
    assert!(rec.created_at.ends_with("+00:00"));
    assert!(rec.created_at.len() >= 25);
}

fn file(relative: &str, modified_at: i64) -> WalkedFile {
    WalkedFile { is_file: true, relative: relative.to_string(), modified_at, modified_label: None }
}

#[test]
fn the_report_walk_merges_candidates_and_counts_files() {
    let entries = vec![
        WalkedFile { is_file: false, relative: "sub".to_string(), modified_at: 0, modified_label: None },
        file("sub\\a_fusion_report.json.enc", 10),
        file("notes.txt", 11),
        file("sub/a_fusion_report.json", 5),
        file("b_fusion_report.json", 7),
    ];
    let (cands, visited) = collect_fusion_candidates(&entries);
    assert_eq!(visited, 4);
    assert_eq!(cands.len(), 2);
    assert_eq!(cands[0].logical, "sub/a_fusion_report.json");
    assert!(!cands[0].encrypted);
    assert_eq!(cands[0].modified, 5);
    assert_eq!(cands[1].logical, "b_fusion_report.json");

    let mut many: Vec<WalkedFile> = (0..20_000).map(|i| file(&format!("frame{i}.jpg"), 1)).collect();
    many.push(file("late_fusion_report.json", 1));
    many.push(file("later_fusion_report.json", 1));
    let (cands, visited) = collect_fusion_candidates(&many);
    assert_eq!(visited, 20_001);
    assert!(cands.is_empty());

    assert_eq!(rejected_reports(&vec![true, false, false, true]), 2);
    assert_eq!(rejected_reports(&Vec::new()), 0);
}
