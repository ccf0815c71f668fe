use trueshot_server::listing::{last_entries, push_bounded};
use trueshot_server::ply::ply_lod_lines;
use trueshot_server::scan::{
    burst_file_name, capture_verification, confirm_step, median_stack, median_u8, resolution_violation,
    scan_step_action, sdcard_import_admission, sdcard_manifest_hash, ScanStepAction, SdImportRefusal,
};
use trueshot_server::share::lod_levels;
use trueshot_server::storage::{default_oauth_config, CloudProvider};
use trueshot_server::auth::{cleared_session_cookies, refresh_admission, session_source, SessionRefusal, SessionSource};
use trueshot_server::hardware::Role;
use trueshot_server::storage::{begin_oauth, new_state_token, token_connection, OAuthConfig, StorageConnectionStatus};
use trueshot_server::calibration::{clear_session_frames, CalibrationSession};

#[test]
fn the_runner_waits_at_positioning_steps_and_unconfirmed_captures() {
    assert_eq!(scan_step_action(3, 3, "capture", false, true, None), (ScanStepAction::Complete, None));
    assert_eq!(scan_step_action(0, 3, "capture", true, true, Some(0)), (ScanStepAction::Stop, Some(0)));
    assert_eq!(scan_step_action(0, 3, "camera_position", false, true, None), (ScanStepAction::Wait, None));
    assert_eq!(scan_step_action(1, 3, "object_orientation", false, true, None), (ScanStepAction::Wait, None));
    assert_eq!(scan_step_action(1, 3, "capture", false, true, None), (ScanStepAction::Capture, None));
    assert_eq!(scan_step_action(1, 3, "capture", false, false, None), (ScanStepAction::Wait, None));
    assert_eq!(scan_step_action(1, 3, "capture", false, false, Some(1)), (ScanStepAction::Capture, None));
    assert_eq!(scan_step_action(1, 3, "capture", false, true, Some(2)), (ScanStepAction::Capture, Some(2)));
    assert_eq!(scan_step_action(1, 3, "note", false, true, Some(2)), (ScanStepAction::Next, Some(2)));
}

#[test]
fn confirming_a_step_resumes_there_or_after_it() {
    let c = confirm_step(4, true, Some(4), None);
    assert_eq!((c.next_step, c.manual_capture_step, c.accepted), (4, Some(4), true));
    let c = confirm_step(4, false, Some(4), Some(1));
    assert_eq!((c.next_step, c.manual_capture_step, c.accepted), (5, Some(1), true));
    let c = confirm_step(4, true, Some(2), None);
    assert_eq!((c.next_step, c.manual_capture_step, c.accepted), (4, Some(4), false));
}

#[test]
fn the_first_enabled_camera_over_the_licensed_resolution_is_named() {
    let cams = vec![(false, Some((9000u32, 10u32))), (true, None), (true, Some((4000, 6000))), (true, Some((8000, 1)))];
    assert_eq!(resolution_violation(Some(5000), &cams), Some((2, 6000)));
    assert_eq!(resolution_violation(Some(9000), &cams), None);
    assert_eq!(resolution_violation(None, &cams), None);
}

#[test]
fn burst_frames_and_verification() {
    assert_eq!(burst_file_name("cam 1", 1700, 2, "IMG_1.NEF"), "cam_1__1700_b2__IMG_1.NEF");
    assert_eq!(burst_file_name("c", -5, 0, "x"), "c__-5_b0__x");
    assert_eq!(capture_verification(2, 2), Ok(()));
    assert_eq!(
        capture_verification(3, 1),
        Err("Capture verification incomplete: expected 3, verified 1".to_string())
    );
}

#[test]
fn sd_card_imports_hash_and_admission() {
    assert_eq!(
        sdcard_manifest_hash(&vec!["abc".to_string(), "def".to_string()]),
        "bef57ec7f53a6d40beb640a780a639c83bc29ac8a9816f1fc6c5c6dcd93c4721"
    );
    assert_eq!(
        sdcard_manifest_hash(&Vec::new()),
        "e3b0c44298fc1c149afbf4c8996fb92427ae41e4649b934ca495991b7852b855"
    );
    let gib = 1024u64 * 1024 * 1024;
    assert_eq!(sdcard_import_admission(gib, 0, None, None, None, Some(2 * gib)), Err(SdImportRefusal::InsufficientStorage));
    assert_eq!(sdcard_import_admission(gib, 0, None, None, None, Some(3 * gib)), Ok(()));
    assert_eq!(sdcard_import_admission(gib, 0, None, None, Some(0), Some(0)), Ok(()));
    assert_eq!(sdcard_import_admission(11 * gib, 0, None, None, None, None), Err(SdImportRefusal::ExceedsMaxUpload));
    assert_eq!(sdcard_import_admission(gib, 100 * gib, None, None, None, None), Err(SdImportRefusal::ProjectQuotaExceeded));
}

#[test]
fn background_plates_take_the_per_position_median() {
    assert_eq!(median_u8(&[5, 1, 9]), 5);
    assert_eq!(median_u8(&[4, 1, 9, 7]), 7);
    assert_eq!(median_u8(&[0]), 0);
    let frames = vec![vec![10u8, 200, 3], vec![30, 100, 3], vec![20, 0, 255]];
    assert_eq!(median_stack(&frames), Some(vec![20, 100, 3]));
    assert_eq!(median_stack(&Vec::new()), None);
}

#[test]
fn histories_keep_their_last_entries() {
    let mut h: Vec<u32> = Vec::new();
    for i in 0..105 {
        push_bounded(&mut h, i, 100);
    }
    assert_eq!(h.len(), 100);
    assert_eq!(h[0], 5);
    assert_eq!(last_entries(h, 3), vec![102, 103, 104]);
    assert_eq!(last_entries(vec![1, 2], 50), vec![1, 2]);
}

#[test]
fn lod_levels_keep_useful_targets() {
    assert_eq!(lod_levels(1000, &[350, 150, 2], 4), vec![(1, 350), (2, 150)]);
    assert_eq!(lod_levels(100, &[100, 49, 60], 50), vec![(3, 60)]);
}

#[test]
fn point_cloud_lods_keep_every_step_th_vertex() {
    let mut lines: Vec<String> = ["ply\n", "format ascii 1.0\n", "element vertex 20\n", "property float x\n", "end_header\n"]
        .iter()
        .map(|s| s.to_string())
        .collect();
    for i in 0..20 {
        lines.push(format!("{i} 0 0\n"));
    }
    let out = ply_lod_lines(&lines, 10).unwrap();
    assert_eq!(out[2], "element vertex 10\n");
    assert_eq!(out.len(), 5 + 10);
    assert_eq!(out[5], "0 0 0\n");
    assert_eq!(out[6], "2 0 0\n");
    assert_eq!(out[14], "18 0 0\n");
    let binary: Vec<String> = ["ply\n", "format binary_little_endian 1.0\n", "end_header\n"].iter().map(|s| s.to_string()).collect();
    assert_eq!(ply_lod_lines(&binary, 10), None);
}

#[test]
fn oauth_providers_get_their_callbacks_and_scopes() {
    let c = default_oauth_config(CloudProvider::Dropbox, "id".to_string(), "s".to_string(), "https://h").unwrap();
    assert_eq!(c.redirect_uri, "https://h/api/storage/oauth/dropbox/callback");
    assert_eq!(c.scopes, vec!["files.content.read".to_string(), "files.content.write".to_string()]);
    let g = default_oauth_config(CloudProvider::GoogleDrive, String::new(), String::new(), "").unwrap();
    assert_eq!(g.redirect_uri, "/api/storage/oauth/google_drive/callback");
    assert_eq!(g.scopes.len(), 2);
    assert!(default_oauth_config(CloudProvider::S3, String::new(), String::new(), "x").is_none());
}

#[test]
fn sessions_open_from_a_bearer_token_or_an_admin_key() {
    assert_eq!(session_source(true, true, None), Ok(SessionSource::Bearer));
    assert_eq!(session_source(true, false, Some(Role::Admin)), Err(SessionRefusal::InvalidToken));
    assert_eq!(session_source(false, false, Some(Role::Admin)), Ok(SessionSource::ApiKey));
    assert_eq!(session_source(false, false, Some(Role::Guest)), Err(SessionRefusal::AdminRequired));
    assert_eq!(session_source(false, false, None), Err(SessionRefusal::MissingCredentials));
    assert_eq!(SessionRefusal::MissingCredentials.answer(), (401, "Missing auth token or API key"));
    assert_eq!(refresh_admission(Some("a"), Some("b"), Some("r")), Err(SessionRefusal::CsrfMismatch));
    assert_eq!(refresh_admission(Some("a"), Some("a"), None), Err(SessionRefusal::MissingRefreshToken));
    assert_eq!(refresh_admission(Some("a"), Some("a"), Some("r")), Ok("r".to_string()));
    let (s, r, c) = cleared_session_cookies("sess", "ref", "csrf");
    assert_eq!((s.name.as_str(), s.value.as_str(), s.max_age_seconds, s.http_only), ("sess", "", 0, true));
    assert_eq!((r.name.as_str(), r.http_only), ("ref", true));
    assert_eq!((c.name.as_str(), c.http_only, c.path.as_str()), ("csrf", false, "/"));
}

#[test]
fn oauth_sign_in_carries_a_fresh_state_token() {
    let config = OAuthConfig {
        client_id: "cid".to_string(),
        client_secret: "sec".to_string(),
        redirect_uri: "https://h/cb".to_string(),
        scopes: vec!["a".to_string()],
    };
    let (token, url) = begin_oauth(CloudProvider::Dropbox, &config).unwrap();
    assert_eq!(token.len(), 43);
    assert!(url.starts_with("https://www.dropbox.com/oauth2/authorize?client_id=cid&redirect_uri=https%3A%2F%2Fh%2Fcb"));
    assert!(url.ends_with(&format!("&state={token}")));
    assert!(begin_oauth(CloudProvider::Nas, &config).is_none());
    assert_ne!(new_state_token(), new_state_token());
    assert!(new_state_token().chars().all(|c| c.is_ascii_alphanumeric() || c == '-' || c == '_'));
}

#[test]
fn clearing_a_calibration_session_returns_its_frames() {
    let mut s = CalibrationSession { camera_id: Some("c".to_string()), captured_frames: vec!["a.jpg".to_string()] };
    assert_eq!(clear_session_frames(&mut s), vec!["a.jpg".to_string()]);
    assert!(s.captured_frames.is_empty() && s.camera_id.is_none());
}

#[test]
fn stored_tokens_become_connections() {
    let (p, status, name, base) = token_connection("dropbox:me@x", true);
    assert_eq!(p, CloudProvider::Dropbox);
    assert_eq!(status, StorageConnectionStatus::Connected);
    assert_eq!((name.as_str(), base.as_str()), ("Dropbox", "/TrueShot"));
    let (_, status, _, _) = token_connection("google_drive", false);
    assert_eq!(status, StorageConnectionStatus::NeedsReauth);
    let (p, status, name, _) = token_connection("mystery", false);
    assert_eq!((p, status, name.as_str()), (CloudProvider::Nas, StorageConnectionStatus::Connected, "Legacy Storage"));
}
