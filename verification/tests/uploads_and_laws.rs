use trueshot_server::calibration::sanitize_id;
use trueshot_server::general::{redact_log_content, redact_log_content_checked};
use trueshot_server::project::{finish_sniff, sniff_chunk, upload_mime_allowed, UploadSniff};
use trueshot_server::project_asset::offset_limit_range;

fn png_head() -> Vec<u8> {
    let mut v = vec![0x89u8, 0x50, 0x4E, 0x47, 0x0D, 0x0A, 0x1A, 0x0A];
    v.extend_from_slice(&[0u8; 24]);
    v
}

#[test]
fn sniffing_waits_for_sixteen_bytes_then_names_the_type() {
    let head = png_head();
    let mut sniff = UploadSniff { held: Vec::new(), mime: None };
    sniff_chunk(&mut sniff, &head[..10]);
    assert_eq!(sniff.held.len(), 10);
    assert_eq!(sniff.mime, None);
    sniff_chunk(&mut sniff, &head[10..]);
    assert_eq!(sniff.held, head);
    assert_eq!(sniff.mime, Some("image/png".to_string()));
}

#[test]
fn sniffing_holds_at_most_8192_bytes() {
    let mut sniff = UploadSniff { held: vec![0u8; 8190], mime: None };
    sniff_chunk(&mut sniff, &[1u8; 10]);
    assert_eq!(sniff.held.len(), 8192);
    assert_eq!(&sniff.held[8190..], &[1u8, 1u8]);
    let before = sniff.clone();
    sniff_chunk(&mut sniff, &png_head());
    assert_eq!(sniff, before);
}

#[test]
fn a_short_upload_is_sniffed_when_it_ends() {
    let sniff = UploadSniff { held: png_head()[..8].to_vec(), mime: None };
    assert_eq!(finish_sniff(sniff), Some("image/png".to_string()));
    let known = UploadSniff { held: Vec::new(), mime: Some("text/plain".to_string()) };
    assert_eq!(finish_sniff(known), Some("text/plain".to_string()));
    assert_eq!(finish_sniff(UploadSniff { held: vec![0u8; 4], mime: None }), None);
}

#[test]
fn sniffed_types_must_suit_the_extension() {
    assert!(upload_mime_allowed("scan.PLY", &Some("text/plain".to_string())));
    assert!(!upload_mime_allowed("scan.glb", &Some("image/png".to_string())));
    assert!(upload_mime_allowed("scan.glb", &Some("Application/Octet-Stream".to_string())));
    assert!(upload_mime_allowed("scan.glb", &None));
    assert!(!upload_mime_allowed("noext", &Some("text/plain".to_string())));
}

#[test]
fn checked_redaction_refuses_values_a_byte_scan_would_cut() {
    assert_eq!(
        redact_log_content_checked("x token=abc y"),
        Some("x token=[redacted] y".to_string())
    );
    assert_eq!(redact_log_content("x token=abc y"), "x token=[redacted] y");
    // U+0145 is encoded C5 85; its second byte reads as whitespace.
    assert_eq!(redact_log_content_checked("token=a\u{145}b"), None);
    assert_eq!(redact_log_content_checked("plain \u{145} text"), Some("plain \u{145} text".to_string()));
}

#[test]
fn sanitizing_twice_changes_nothing() {
    for s in ["cam 1/ä", "", "../x", "a_b-C9"] {
        let once = sanitize_id(s);
        assert!(!once.is_empty());
        assert!(!once.contains('/') && !once.contains('.'));
        assert_eq!(sanitize_id(&once), once);
    }
}

#[test]
fn offset_ranges_start_at_the_offset_and_stay_in_the_file() {
    assert_eq!(offset_limit_range(10, 3, Some(4)), Ok((3, 6)));
    assert_eq!(offset_limit_range(10, 3, None), Ok((3, 9)));
    assert_eq!(offset_limit_range(10, 3, Some(0)), Err(()));
    assert_eq!(offset_limit_range(10, 3, Some(u64::MAX)), Ok((3, 9)));
    assert_eq!(offset_limit_range(0, 0, None), Err(()));
}
