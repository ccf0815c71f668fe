use trueshot_server::adaptive::{advance_generation, check_candidate_grid, check_focus_candidates, session_admission};
use trueshot_server::annotations::{
    annotation_file_name, check_annotation_asset, layer_created_at, layer_name, merge_annotation_order, point_defaults,
};
use trueshot_server::auth::{
    api_token_expiry, api_token_scopes, bootstrap_status, build_session_cookie, check_bootstrap, csrf_header_matches,
    extract_bearer_token, guest_subject, login_role, may_mint_tokens, pairing_subject, sanitize_guest_scopes,
    ApiTokenRequest, BootstrapRefusal, BootstrapRequest, GuestRequest,
};
use trueshot_server::calibration::{
    add_frame_bytes, calibration_dir, calibration_frame_name, checkerboard_dims, checkerboard_gate, choose_camera,
    color_calibration_gate, next_frame_slot, record_calibration_frame, reset_session_if_needed, sanitize_id,
    CalibrationRefusal, CalibrationSession, CameraChoiceError, FrameSizeRefusal,
};
use trueshot_server::devices::{
    batch_action, device_stats, phone_capture_settings, route_device_action, turntable_entry, BatchAction,
    DeviceActionRoute, DeviceCounts, DeviceLookup, DeviceStatus, DeviceType,
};
use trueshot_server::edits::{check_mesh_output_format, edit_history_output, edit_input, edit_output_name, edit_response, EditKind};
use trueshot_server::general::{log_tail_start, redact_after_marker, redact_log_content};
use trueshot_server::hardware::{
    build_hdr_sequence, extract_bearer, focus_step, frame_header, load_stream_limits, origin_allowed, scopes_allow,
    stream_frame_decision, stream_interval_ms, stream_token, validate_bracket, validate_interval, AuthContext,
    FrameDecision, Role, StreamQuery,
};
use trueshot_server::jobs::{check_job_inputs, resolve_job_type, unsupported_job_message, JobType};
use trueshot_server::license::{
    self_trial_check, trial_days, trial_issuer_enabled, trial_message, trial_subject_key, trial_unavailable_reason,
    SelfTrialRefusal, TrialRequest,
};
use trueshot_server::listing::{sort_newest_first, text_less};
use trueshot_server::ply::{face_triangles, ply_layout, ply_vertex_count, PlyError};
use trueshot_server::project::{
    accept_upload_chunk, antivirus_arguments, asset_limit, asset_path, asset_scopes, is_allowed_mime_for_extension,
    is_allowed_model_extension, license_from_legal, license_response, newest_assets, requested_scopes, ProjectAsset,
    ProjectAssetsQuery, UploadProgress, UploadRefusal,
};
use trueshot_server::scan::{
    capture_burst_count, capture_burst_keep_all, defect_action, estimate_setup_time, find_insertion_index,
    get_camera_instruction, is_media_extension, mask_pixel_box, sanitize_camera_id, sdcard_mount_roots, HostOs,
    PlanStepPlace, QualityDefect,
};
use trueshot_server::share::{
    escape_html, public_share_page, remaining_uses, share_asset_mode, share_card_html, share_lod_entries,
    share_urls, PublicShareQuery, ShareAssetQuery,
};
use trueshot_server::status::{audit_read_plan, health_response, readiness, start_xr_session, AuditQuery, ReadinessChecks};
use trueshot_server::storage::{
    add_storage_plan, backup_start_check, check_oauth_state, join_remote_path, normalize_remote_path,
    normalize_storage_id, oauth_authorize_url, oauth_callback_check, oauth_exchange_plan, provider_catalog,
    restore_source, AddStorageRequest, ArchiveSource, BackupJobStatus, BackupStartRefusal, BackupStartRequest,
    CallbackRefusal, CloudProvider, OAuthCallback, OAuthConfig, RestoreRefusal, RestoreSourceFacts,
};
use trueshot_server::websocket::{after_lag, after_send, forward_payload, ws_limits, ForwardStep};

fn is_uuid_v4(s: &str) -> bool {
    let b: Vec<char> = s.chars().collect();
    b.len() == 36 && b[8] == '-' && b[13] == '-' && b[18] == '-' && b[23] == '-' && b[14] == '4'
}

#[test]
fn log_redaction_hides_secret_values() {
    assert_eq!(
        redact_log_content("Authorization: Bearer abc123 password=hunter2;x=1"),
        "Authorization: Bearer [redacted] password=[redacted];x=1"
    );
    assert_eq!(redact_after_marker("k=v token=t1,token=t2", "token="), "k=v token=[redacted],token=[redacted]");
    assert_eq!(redact_after_marker("nothing here", "token="), "nothing here");
    assert_eq!(log_tail_start(100, 30), 70);
    assert_eq!(log_tail_start(10, 30), 0);
}

#[test]
fn guest_scopes_are_filtered_to_the_guest_set() {
    assert_eq!(
        sanitize_guest_scopes(Some(vec!["stream:read".to_string(), "admin:*".to_string()])),
        vec!["stream:read".to_string()]
    );
    assert_eq!(sanitize_guest_scopes(Some(vec!["admin:*".to_string()])).len(), 4);
    assert_eq!(sanitize_guest_scopes(None).len(), 4);
}

#[test]
fn bearer_tokens_and_csrf_checks() {
    assert_eq!(extract_bearer_token(Some("Bearer  tok ")), Some(" tok ".to_string()));
    assert_eq!(extract_bearer_token(Some("Basic tok")), None);
    assert_eq!(extract_bearer_token(Some("Bearer   ")), Some("  ".to_string()));
    assert_eq!(extract_bearer(Some("Bearer  tok ")), Some("tok".to_string()));
    assert_eq!(extract_bearer(Some("Bearer   ")), None);
    assert!(csrf_header_matches(Some("abc"), Some("abc")));
    assert!(!csrf_header_matches(Some("abc"), Some("abd")));
    assert!(!csrf_header_matches(None, Some("abc")));
    let cookie = build_session_cookie("trueshot_session", "tok", 60, Some(true));
    assert_eq!(cookie.name, "trueshot_session");
    assert!(cookie.secure);
}

#[test]
fn sessions_and_tokens() {
    assert_eq!(guest_subject(&GuestRequest { label: None }), "guest");
    assert_eq!(pairing_subject(Some("phone")), "guest:phone");
    assert_eq!(pairing_subject(None), "guest");
    assert!(bootstrap_status(None).required);
    let short = BootstrapRequest { email: "a@b".to_string(), name: "A".to_string(), password: "short".to_string() };
    assert_eq!(check_bootstrap(true, &short), Err(BootstrapRefusal::PasswordTooShort));
    assert_eq!(check_bootstrap(false, &short), Err(BootstrapRefusal::AlreadyCompleted));
    let long = BootstrapRequest { password: "a-long-password".to_string(), ..short };
    assert!(check_bootstrap(true, &long).is_ok());
    assert_eq!(login_role("Admin"), Role::Admin);
    assert_eq!(login_role("admin"), Role::Guest);
    assert!(!may_mint_tokens("api_key"));
    let req = ApiTokenRequest { name: "ci".to_string(), scopes: None, expires_in_seconds: Some(60) };
    assert_eq!(api_token_scopes(&req), vec!["*".to_string()]);
    assert_eq!(api_token_expiry(Some(60), 1000), Some(1060));
    assert_eq!(api_token_expiry(None, 1000), None);
}

#[test]
fn scopes_origins_and_stream_limits() {
    let guest = AuthContext { sub: "g".to_string(), role: Role::Guest, scopes: vec!["stream:read".to_string()] };
    assert!(scopes_allow(&guest, "stream:read"));
    assert!(!scopes_allow(&guest, "system:read"));
    let admin = AuthContext { sub: "a".to_string(), role: Role::Admin, scopes: vec![] };
    assert!(scopes_allow(&admin, "anything"));
    assert!(origin_allowed(None, &Some(vec!["https://a".to_string()])));
    assert!(!origin_allowed(Some("https://b"), &Some(vec!["https://a".to_string()])));
    assert!(origin_allowed(Some("https://b"), &None));
    let limits = load_stream_limits(Some("500"), None, Some("x"), Some("1"));
    assert_eq!(limits.max_fps, 120);
    assert_eq!(limits.max_frame_bytes, 4 * 1024 * 1024);
    assert_eq!(limits.max_bytes_per_sec, 8 * 1024 * 1024);
    assert_eq!(limits.idle_timeout_seconds, 5);
    assert_eq!(stream_interval_ms(limits), 8);
    assert_eq!(stream_frame_decision(10, 20, 100), FrameDecision::OverBudget);
    assert_eq!(stream_frame_decision(10, 200, 100), FrameDecision::TooLarge);
    assert_eq!(stream_frame_decision(30, 20, 100), FrameDecision::Send);
    assert_eq!(frame_header(5), "--frame\r\nContent-Type: image/jpeg\r\nContent-Length: 5\r\n\r\n");
    let q = StreamQuery { token: None };
    assert_eq!(stream_token(&q, None, Some("c".to_string())), Some("c".to_string()));
}

#[test]
fn hdr_brackets_step_around_the_base_shutter() {
    let options: Vec<String> = ["1/1000", "1/500", "1/250", "1/125", "1/60"].iter().map(|s| s.to_string()).collect();
    let base = "1/250".to_string();
    let seq = build_hdr_sequence(&options, Some(&base), 3, 1);
    assert_eq!(seq, vec![Some("1/500".to_string()), Some("1/250".to_string()), Some("1/125".to_string())]);
    let wide = build_hdr_sequence(&options, Some(&base), 3, 5);
    assert_eq!(wide, vec![Some("1/1000".to_string()), Some("1/250".to_string()), Some("1/60".to_string())]);
    assert_eq!(build_hdr_sequence(&[], None, 3, 1), vec![None, None, None]);
    assert_eq!(validate_bracket(4, 1), Err("bracket_count must be an odd number >= 3"));
    assert_eq!(validate_bracket(3, 0), Err("ev_spacing must be >= 1"));
    assert_eq!(focus_step(5, -500, "NEAR"), Ok(200));
    assert_eq!(focus_step(5, 0, "far"), Ok(-1));
    assert_eq!(focus_step(1, 10, "far"), Err("slice_count must be >= 2"));
    assert_eq!(focus_step(3, 10, "up"), Err("direction must be 'near' or 'far'"));
    assert_eq!(validate_interval(199), Err("interval_ms must be >= 200"));
}

#[test]
fn ply_headers_are_read_line_by_line() {
    let header: Vec<String> = [
        "ply", "format ascii 1.0", "element vertex 3", "property float x", "property float y",
        "property float z", "element face 1", "property list uchar int vertex_indices", "end_header",
    ]
    .iter()
    .map(|s| s.to_string())
    .collect();
    let layout = ply_layout(&header).unwrap();
    assert_eq!(layout.vertex_count, 3);
    assert_eq!(layout.face_count, 1);
    assert_eq!((layout.x, layout.y, layout.z), (0, 1, 2));
    assert_eq!(ply_vertex_count(&header), Err(PlyError::NonVertexElements));
    let points: Vec<String> = ["ply", "format ascii 1.0", "element vertex 3", "property float x", "element face 0", "end_header"]
        .iter()
        .map(|s| s.to_string())
        .collect();
    assert_eq!(ply_vertex_count(&points), Ok(3));
    let binary: Vec<String> = ["ply", "format binary_little_endian 1.0", "end_header"].iter().map(|s| s.to_string()).collect();
    assert_eq!(ply_layout(&binary), Err(PlyError::NotAscii));
    assert_eq!(face_triangles("4 0 1 2 3"), vec![(0, 1, 2), (0, 2, 3)]);
    assert_eq!(face_triangles("2 0 1"), vec![]);
}

#[test]
fn calibration_sessions_follow_one_camera() {
    assert_eq!(sanitize_id("cam 1/ä"), "cam_1__");
    assert_eq!(sanitize_id(""), "_");
    assert_eq!(calibration_dir("/p", "cam 1"), "/p/_calibration/cam_1");
    assert_eq!(calibration_frame_name("cam", 3), "calib_cam_3.jpg");
    let mut session = CalibrationSession { camera_id: Some("a".to_string()), captured_frames: vec!["f1".to_string()] };
    let dropped = reset_session_if_needed(&mut session, "a");
    assert!(dropped.is_empty());
    assert_eq!(session.captured_frames.len(), 1);
    let dropped = reset_session_if_needed(&mut session, "b");
    assert_eq!(dropped, vec!["f1".to_string()]);
    assert_eq!(session.camera_id, Some("b".to_string()));
    assert!(session.captured_frames.is_empty());
    record_calibration_frame(&mut session, "f2".to_string(), "b");
    assert_eq!(next_frame_slot(&session), Some(1));
    assert_eq!(checkerboard_gate(None, &session), Err(CalibrationRefusal::NeedFrames(1)));
    assert_eq!(CalibrationRefusal::NeedFrames(1).message(), "Need at least 5 frames, have 1");
    assert_eq!(checkerboard_dims(None, Some(7)), (9, 7));
    assert_eq!(add_frame_bytes(0, 0), Err(FrameSizeRefusal::Frame));
    assert_eq!(add_frame_bytes(2_147_483_000, 1000), Err(FrameSizeRefusal::Session));
    assert_eq!(add_frame_bytes(10, 5), Ok(15));
    assert_eq!(color_calibration_gate(None, Some(9), &session), Ok((0, "b".to_string())));
    let ids = vec!["x".to_string(), "y".to_string()];
    assert_eq!(choose_camera(&ids, Some("y"), None), Ok(1));
    assert_eq!(choose_camera(&ids, Some("z"), None), Err(CameraChoiceError::NotFound("z".to_string())));
    assert_eq!(CameraChoiceError::IndexOutOfRange(4).message(), "Camera index 4 out of range");
    assert_eq!(choose_camera(&vec![], None, None), Err(CameraChoiceError::NoCameras));
}

#[test]
fn scan_guidance_and_plans() {
    assert_eq!(get_camera_instruction(-20), "Move camera LOW (20° below eye level)");
    assert_eq!(get_camera_instruction(0), "Position camera at EYE LEVEL with object");
    assert_eq!(get_camera_instruction(30), "Move camera MEDIUM height (30° above)");
    assert_eq!(get_camera_instruction(45), "Move camera HIGH (45° above, looking down)");
    assert_eq!(get_camera_instruction(80), "Position camera OVERHEAD (80° from above)");
    let capture = |c: u32, o: u32| PlanStepPlace { is_capture: true, camera_position: Some(c), object_orientation: Some(o) };
    let steps = vec![capture(0, 0), capture(1, 0), capture(1, 0), capture(2, 0)];
    assert_eq!(find_insertion_index(&steps, 0, 1, 0), 3);
    assert_eq!(find_insertion_index(&steps, 3, 1, 0), 4);
    assert_eq!(estimate_setup_time(2, 3), 2 * 30 + 3 * 2 * 15);
    assert_eq!(estimate_setup_time(0, 0), 45);
    let mask = vec![0u8, 0, 0, 0, 1, 1, 0, 0, 0];
    assert_eq!(mask_pixel_box(&mask, 3, 3), Some((1, 1, 1, 1)));
    assert_eq!(mask_pixel_box(&[0u8; 4], 2, 2), None);
    assert_eq!(capture_burst_count(Some("50")), 10);
    assert_eq!(capture_burst_count(Some("x")), 3);
    assert_eq!(capture_burst_count(None), 3);
    assert!(capture_burst_keep_all(Some("YES")));
    assert!(!capture_burst_keep_all(Some("Yes")));
    assert_eq!(sanitize_camera_id(""), "");
    assert_eq!(sanitize_camera_id("a:b"), "a_b");
    assert_eq!(sdcard_mount_roots(HostOs::Linux), vec!["/media".to_string(), "/run/media".to_string(), "/mnt".to_string()]);
    let windows = sdcard_mount_roots(HostOs::Windows);
    assert_eq!(windows.len(), 23);
    assert_eq!(windows[0], "D:\\");
    assert_eq!(windows[22], "Z:\\");
    assert!(is_media_extension("nef"));
    assert!(!is_media_extension("NEF"));
    assert_eq!(defect_action(QualityDefect::Blur), "Stabilize camera and increase shutter speed.");
}

#[test]
fn share_links_and_cards() {
    let (asset, download, viewer) = share_urls(None, Some("https://app"), "http", "host:8080", "tok");
    assert_eq!(asset, "http://host:8080/api/share/tok/asset");
    assert_eq!(download, "http://host:8080/api/share/tok/asset?download=true");
    assert_eq!(viewer, "https://app/share/tok");
    assert_eq!(escape_html("<a href=\"x\">'&'</a>"), "&lt;a href=&quot;x&quot;&gt;&#39;&amp;&#39;&lt;/a&gt;");
    let html = share_card_html("output/m.glb", Some("<b>"), None, "https://app/share/t", "https://x/assets/share-card.svg");
    assert!(html.contains("<title>&lt;b&gt;</title>"));
    assert!(html.contains("Shared 3D asset"));
    assert!(!html.contains("<b>"));
    assert_eq!(remaining_uses(Some(5), 7), Some(-2));
    assert_eq!(remaining_uses(None, 7), None);
    let q = ShareAssetQuery { download: Some(true), lod: None, offset: None, limit: None };
    assert_eq!(share_asset_mode(q, false, true), Err("Downloads disabled"));
    let q = ShareAssetQuery { download: None, lod: None, offset: None, limit: None };
    assert_eq!(share_asset_mode(q, false, false), Err("Embeds disabled"));
    assert_eq!(share_asset_mode(q, false, true), Ok(false));
    let lods = share_lod_entries(Some("https://pub"), "http", "h", "tok", &vec![None, Some(10), None, Some(3)]);
    assert_eq!(lods.len(), 2);
    assert_eq!(lods[0].level, 1);
    assert_eq!(lods[0].asset_url, "https://pub/api/share/tok/asset?lod=1");
    assert_eq!(lods[1].bytes, 3);
    let page = public_share_page(&PublicShareQuery { limit: Some(1000), offset: Some(-4), tag: None, sort: None });
    assert_eq!(page, (100, 0));
}

#[test]
fn project_uploads_assets_and_licences() {
    assert!(is_allowed_model_extension("scan.GLB"));
    assert!(!is_allowed_model_extension("scan.exe"));
    assert!(is_allowed_mime_for_extension("glb", "model/gltf-binary"));
    assert!(is_allowed_mime_for_extension("obj", "APPLICATION/OCTET-STREAM"));
    assert!(!is_allowed_mime_for_extension("obj", "image/png"));
    let q = ProjectAssetsQuery { scope: Some("all".to_string()), limit: Some(0) };
    assert_eq!(asset_scopes(&q), Ok(vec!["output", "processed"]));
    assert_eq!(asset_limit(&q), 1);
    let bad = ProjectAssetsQuery { scope: Some("raw".to_string()), limit: None };
    assert_eq!(asset_scopes(&bad), Err("scope must be output, processed, or all"));
    assert_eq!(asset_limit(&bad), 500);
    assert_eq!(asset_path("output", "a\\b.ply"), "output/a/b.ply");
    let a = |p: &str| ProjectAsset { path: p.to_string(), bytes: 1, modified_at: None };
    let newest = newest_assets(vec![(1, a("old")), (5, a("new")), (5, a("new2")), (3, a("mid"))], 3);
    assert_eq!(newest, vec![a("new"), a("new2"), a("mid")]);
    assert_eq!(requested_scopes(None), vec!["raw".to_string(), "processed".to_string(), "output".to_string()]);
    assert!(license_from_legal(None, None, None, None, "now".to_string()).is_none());
    let lic = license_from_legal(Some("CC".to_string()), None, None, None, "now".to_string()).unwrap();
    assert_eq!(lic.updated_at, Some("now".to_string()));
    assert_eq!(license_response(None, None).title, None);
    let args = antivirus_arguments(Some(&vec!["--scan={path}".to_string(), "-q".to_string()]), "/f");
    assert_eq!(args, vec!["--scan=/f".to_string(), "-q".to_string()]);
    let args = antivirus_arguments(Some(&vec!["-q".to_string()]), "/f");
    assert_eq!(args, vec!["-q".to_string(), "/f".to_string()]);
    let start = UploadProgress { total_written: 0, file_written: 0, sniff_len: 8000 };
    let (p, take) = accept_upload_chunk(start, 500, 1000, 10_000, 0).unwrap();
    assert_eq!(take, 192);
    assert_eq!(p.sniff_len, 8192);
    assert_eq!(accept_upload_chunk(p, 600, 1000, 10_000, 0), Err(UploadRefusal::UploadTooLarge));
    assert_eq!(accept_upload_chunk(p, 100, 1000, 550, 0), Err(UploadRefusal::ProjectQuotaExceeded));
}

#[test]
fn newest_first_keeps_ties_in_order() {
    let sorted = sort_newest_first(vec![(1, 'a'), (3, 'b'), (3, 'c'), (2, 'd')]);
    assert_eq!(sorted, vec![(3, 'b'), (3, 'c'), (2, 'd'), (1, 'a')]);
    assert!(text_less(&['a', 'b'], &['a', 'c']));
    assert!(text_less(&['a'], &['a', 'a']));
    assert!(!text_less(&['b'], &['a', 'z']));
}

#[test]
fn storage_connections_and_backups() {
    assert_eq!(normalize_remote_path("  /a/b/ "), "a/b");
    assert_eq!(join_remote_path("/TrueShot", "backups/x.tar.gz"), "TrueShot/backups/x.tar.gz");
    assert_eq!(normalize_storage_id("My NAS!"), "my-nas");
    assert_eq!(normalize_storage_id("--"), "storage");
    let catalog = provider_catalog();
    assert_eq!(catalog.len(), 8);
    assert_eq!(catalog[3].id, "icloud");
    assert!(catalog[3].mac_only);
    let config = OAuthConfig {
        client_id: "cid".to_string(),
        client_secret: "sec".to_string(),
        redirect_uri: "https://h/cb".to_string(),
        scopes: vec!["a".to_string(), "b".to_string()],
    };
    assert_eq!(
        oauth_authorize_url(CloudProvider::Dropbox, &config, "st").unwrap(),
        "https://www.dropbox.com/oauth2/authorize?client_id=cid&redirect_uri=https%3A%2F%2Fh%2Fcb&response_type=code&token_access_type=offline&state=st"
    );
    let plan = oauth_exchange_plan(CloudProvider::GoogleDrive, &config, "code1").unwrap();
    assert_eq!(plan.token_url, "https://oauth2.googleapis.com/token");
    assert_eq!(plan.form[0], ("code", "code1".to_string()));
    assert_eq!(oauth_exchange_plan(CloudProvider::S3, &config, "c").unwrap_err(), "Provider does not support OAuth here");
    let cb = OAuthCallback { code: Some("c".to_string()), state: None, error: None };
    assert_eq!(oauth_callback_check(&cb, "dropbox"), Err(CallbackRefusal::MissingState));
    let cb = OAuthCallback { code: None, state: None, error: Some("denied".to_string()) };
    assert_eq!(oauth_callback_check(&cb, "dropbox").unwrap_err().message(), "OAuth error: denied");
    assert_eq!(check_oauth_state(Some((CloudProvider::Dropbox, 0)), CloudProvider::Dropbox, 601), Err("OAuth state expired"));
    assert_eq!(check_oauth_state(Some((CloudProvider::Dropbox, 1)), CloudProvider::Dropbox, 601), Ok(()));
    assert_eq!(check_oauth_state(Some((CloudProvider::OneDrive, 1)), CloudProvider::Dropbox, 601), Err("Invalid OAuth state"));
    let body = AddStorageRequest {
        provider: "s3".to_string(),
        name: "Main Bucket".to_string(),
        endpoint: None,
        region: None,
        access_key: None,
        secret_key: None,
        bucket: Some("  ".to_string()),
        base_path: None,
    };
    assert_eq!(add_storage_plan(&body), Err("Bucket is required for this provider"));
    let body = AddStorageRequest { bucket: Some("b".to_string()), ..body };
    assert_eq!(
        add_storage_plan(&body),
        Ok((CloudProvider::S3, "s3:main-bucket".to_string(), "/TrueShot".to_string()))
    );
    let req = BackupStartRequest { project_id: "p".to_string(), label: None, storage_id: None, remote_path: Some("r".to_string()) };
    assert_eq!(backup_start_check(true, &req, false), Err(BackupStartRefusal::RemotePathWithoutStorage));
    let facts = RestoreSourceFacts {
        job_found: true,
        status: BackupJobStatus::Completed,
        has_archive_path: true,
        archive_exists: false,
        has_remote: true,
        connection_found: false,
    };
    assert_eq!(restore_source(facts), Err(RestoreRefusal::StorageNotFound));
    assert_eq!(restore_source(RestoreSourceFacts { connection_found: true, ..facts }), Ok(ArchiveSource::Download));
}

#[test]
fn licence_trials() {
    let req = TrialRequest { duration_days: Some(365), bundles: None };
    assert_eq!(trial_days(&req, 90), 90);
    assert_eq!(trial_days(&TrialRequest { duration_days: None, bundles: None }, 30), 14);
    assert_eq!(trial_message(14), "Trial created for 14 day(s)");
    assert!(trial_issuer_enabled(Some("On"), false));
    assert!(trial_issuer_enabled(None, true));
    assert!(!trial_issuer_enabled(Some("off"), false));
    assert_eq!(trial_unavailable_reason(false, "unavailable", true, false), Some("license_unavailable"));
    assert_eq!(trial_unavailable_reason(false, "ok", true, true), Some("trial_already_used"));
    assert_eq!(trial_unavailable_reason(false, "ok", true, false), None);
    assert_eq!(self_trial_check(true, true, false), Err(SelfTrialRefusal::LicenseActive));
    assert_eq!(SelfTrialRefusal::AlreadyUsed.code_and_message().0, "trial_already_used");
    assert_eq!(trial_subject_key("u1"), "trial_self_issued:subject:u1");
}

#[test]
fn devices_statuses_and_actions() {
    assert_eq!(DeviceType::DepthCamera.as_str(), "depth_camera");
    assert_eq!(DeviceStatus::Ready.as_str(), "ready");
    assert_eq!(turntable_entry(true, true, ""), (DeviceStatus::Busy, "Turntable".to_string()));
    let stats = device_stats(DeviceCounts { registered_cameras: 2, connected_cameras: 1, phones: None, disks: 0, turntable_connected: false });
    assert_eq!(stats.total, 4);
    assert_eq!(stats.connected, 2);
    assert_eq!(
        stats.by_type,
        vec![("camera".to_string(), 2), ("sensor".to_string(), 1), ("turntable".to_string(), 1)]
    );
    assert_eq!(stats.by_connection[1], ("network".to_string(), 1));
    let lookup = DeviceLookup { is_phone: true, is_registered_camera: false, camera_connected: false, turntable_present: false };
    assert_eq!(route_device_action("p1", "capture", lookup), DeviceActionRoute::PhoneCapture);
    assert_eq!(route_device_action("p1", "enable", lookup), DeviceActionRoute::Unsupported);
    let tt = DeviceLookup { is_phone: false, is_registered_camera: false, camera_connected: false, turntable_present: true };
    assert_eq!(route_device_action("turntable-main", "rotate", tt), DeviceActionRoute::TurntableRotate);
    assert_eq!(phone_capture_settings(None, Some(1u64 << 32), Some(300)), (false, 0, 44));
    assert_eq!(batch_action("scan"), BatchAction::Scan);
    assert_eq!(batch_action("reboot"), BatchAction::Unknown);
}

#[test]
fn health_audit_and_xr() {
    let h = health_response("1.2.3", None, Some(99));
    assert_eq!((h.status, h.version, h.uptime_seconds, h.timestamp), ("ok", "1.2.3", 0, 99));
    let (r, ready) = readiness(ReadinessChecks { gpu_available: true, license_valid: false, license_status: "x".to_string(), storage_accessible: true });
    assert!(!ready);
    assert_eq!(r.status, "not_ready");
    assert_eq!(audit_read_plan(AuditQuery { limit: Some(10_000), verify: None, verify_anchor: Some(true) }), (5000, false, true));
    assert!(is_uuid_v4(&start_xr_session().session_id));
}

#[test]
fn annotations_and_edits() {
    assert_eq!(
        annotation_file_name("output/a.glb", "default"),
        "0c543b43950ea01e61fbc1fdfdb5c05c3cd0d6a9e2870482ac448e4a3c33710b.json"
    );
    assert_ne!(annotation_file_name("output/a.glb", "default"), annotation_file_name("output/a.glb", "other"));
    assert_eq!(check_annotation_asset("raw/a.nef"), Err("asset_path must begin with output/ or processed/"));
    assert!(check_annotation_asset("processed/a.ply").is_ok());
    assert_eq!(layer_name(&None), "default");
    assert_eq!(layer_created_at(0, 5), 5);
    let (id, created, author) = point_defaults(None, None, None, Some("me".to_string()), 7);
    assert!(is_uuid_v4(&id));
    assert_eq!((created, author), (7, Some("me".to_string())));
    let order = merge_annotation_order(&vec![
        ("a".to_string(), 5),
        ("b".to_string(), 1),
        ("a".to_string(), 3),
        ("c".to_string(), 3),
    ]);
    assert_eq!(order, vec![1, 2, 3]);
    assert_eq!(edit_input("  "), Err("Missing input_path"));
    assert_eq!(edit_input(" a.ply "), Ok("a.ply".to_string()));
    assert!(check_mesh_output_format(Some("PLY")).is_ok());
    assert_eq!(check_mesh_output_format(Some("obj")), Err("Only ply output_format is supported"));
    let name = edit_output_name(EditKind::Splat, None);
    assert!(name.starts_with("splat_edit_") && name.ends_with(".splat"));
    assert_eq!(edit_output_name(EditKind::Mesh, Some("x.ply".to_string())), "x.ply");
    let r = edit_response("edits/20260101T000000Z", "x.ply", "output/edits/history.json".to_string());
    assert_eq!(r.output_path, "output/edits/20260101T000000Z/x.ply");
    assert_eq!(edit_history_output("g", "x.ply"), "output/edits/g/x.ply");
}

#[test]
fn jobs_websocket_and_adaptive_capture() {
    assert_eq!(resolve_job_type("unified_photogrammetry", None), Some(JobType::Photogrammetry));
    assert_eq!(resolve_job_type("custom", Some("gaussian_splatting")), Some(JobType::GaussianSplatting));
    assert_eq!(resolve_job_type("custom", Some("other")), None);
    assert_eq!(unsupported_job_message("x"), "Unsupported job kind: x");
    assert_eq!(check_job_inputs(true, Some(false), Some(false)), Err("livescan_path does not exist".to_string()));
    assert_eq!(check_job_inputs(true, None, Some(false)), Err("dslr_path does not exist".to_string()));
    assert!(check_job_inputs(true, None, None).is_ok());
    let limits = ws_limits(None, Some("8"), Some("2"));
    assert_eq!((limits.max_message_bytes, limits.max_pending_messages, limits.max_dropped_messages), (65536, 8, 2));
    assert_eq!(forward_payload(0, 70_000, limits), (ForwardStep::Drop, 1));
    assert_eq!(forward_payload(0, 10, limits), (ForwardStep::Send, 0));
    assert_eq!(after_send(1, false, limits), (2, true));
    assert_eq!(after_send(1, true, limits), (1, false));
    assert_eq!(after_lag(0, limits), (1, false));
    assert_eq!(check_focus_candidates(0), Err("focus_diopters must contain 1..=256 values"));
    assert_eq!(
        check_candidate_grid(5000),
        Err("Adaptive API candidate grid has 5000 entries; limit is 4096".to_string())
    );
    assert_eq!(session_admission(32, 31), (true, true));
    assert_eq!(session_admission(32, 32), (true, false));
    assert_eq!(advance_generation(3, 2), Err("Adaptive capture session advanced concurrently"));
    assert_eq!(advance_generation(3, 3), Ok(4));
}
