use trueshot_server::annotations::point_defaults_with;
use trueshot_server::calibration::color_frame_index;
use trueshot_server::devices::{camera_entry, phone_status, storage_entry, ConnectionType, DeviceStatus, DeviceType};
use trueshot_server::edits::{edit_group_at, edit_history_path, edit_output_name_with, writes_spz, EditKind};
use trueshot_server::hardware::{
    bracket_base_shutter, hdr_focus_stack_step, intervalometer_finished, CaptureSequenceResult, HdrFocusStackRequest,
};
use trueshot_server::jobs::{adds_webhook, job_max_attempts, validate_path_str};
use trueshot_server::license::{trial_bundles, trial_device_key, TrialRequest};
use trueshot_server::project::{
    bounded_dimension, bounded_string, fusion_artifact_keys, fusion_metric_names, fusion_report_limit,
    replaces_candidate, stamp_license, upload_limits, FusionReportQuery, ProjectLicense,
};
use trueshot_server::scan::{auto_capture, scan_may_start, StartScanRequest};
use trueshot_server::share::{
    lod_candidates, public_share_summary, public_short_url, range_length, share_annotation_target,
    share_card_image, share_card_url, share_last_access, share_link_terms, share_query_window, share_short_url,
    should_generate_lods, split_share_asset_path, CreateShareRequest, PublicShareRecord, ShareAnnotationQuery,
    ShareAssetQuery, ShareRoot,
};
use trueshot_server::status::xr_session_target;

fn share_request(project_id: &str, asset_path: &str) -> CreateShareRequest {
    CreateShareRequest {
        project_id: project_id.to_string(),
        asset_path: asset_path.to_string(),
        expires_in_seconds: None,
        max_uses: None,
        allow_download: None,
        allow_embed: None,
        public: None,
        title: None,
        description: None,
        tags: None,
        short_code: None,
        cover_path: None,
    }
}

#[test]
fn share_terms_trim_and_default() {
    let t = share_link_terms(&share_request("  p1 ", " output/model.glb ")).unwrap();
    assert_eq!(t.project_id, "p1");
    assert_eq!(t.asset_path, "output/model.glb");
    assert_eq!(t.ttl_seconds, 604800);
    assert!(t.allow_download);
    assert!(t.allow_embed);
    let mut req = share_request("p1", "a");
    req.expires_in_seconds = Some(60);
    req.allow_download = Some(false);
    let t2 = share_link_terms(&req).unwrap();
    assert_eq!(t2.ttl_seconds, 60);
    assert!(!t2.allow_download);
    assert_eq!(share_link_terms(&share_request(" ", "a")), Err("Missing project_id or asset_path"));
}

#[test]
fn share_urls_use_the_public_base() {
    assert_eq!(share_card_url(None, "https", "example.com", "tok"), "https://example.com/share/tok/card");
    assert_eq!(share_short_url(Some("https://s.example"), "http", "h", "abc"), "https://s.example/s/abc");
    assert_eq!(share_card_image(None, "http", "localhost:8080"), "http://localhost:8080/assets/share-card.svg");
    assert_eq!(public_short_url(false, None, "http", "h", "abc"), None);
    assert_eq!(public_short_url(true, None, "http", "h", "abc"), Some("http://h/s/abc".to_string()));
}

#[test]
fn public_gallery_entries_carry_every_url() {
    let record = PublicShareRecord {
        public_token: "tok".to_string(),
        short_code: "abc".to_string(),
        title: Some("Vase".to_string()),
        description: None,
        tags: vec!["clay".to_string()],
        cover_path: None,
        created_at: 10,
        updated_at: 20,
        views: 3,
    };
    let s = public_share_summary(record, Some("https://pub.example"), Some("https://app.example"), "http", "h");
    assert_eq!(s.asset_url, "https://pub.example/api/share/tok/asset");
    assert_eq!(s.download_url, "https://pub.example/api/share/tok/asset?download=true");
    assert_eq!(s.viewer_url, "https://app.example/share/tok");
    assert_eq!(s.short_url, "https://pub.example/s/abc");
    assert_eq!(s.card_url, "https://pub.example/share/tok/card");
    assert_eq!(s.title.as_deref(), Some("Vase"));
    assert_eq!(s.views, 3);
}

#[test]
fn shared_asset_paths_split_into_root_and_rest() {
    assert_eq!(split_share_asset_path("/output/mesh.glb"), Some((ShareRoot::Output, "mesh.glb".to_string())));
    assert_eq!(split_share_asset_path("processed/a/b.ply"), Some((ShareRoot::Processed, "a/b.ply".to_string())));
    assert_eq!(split_share_asset_path("raw/x.jpg"), None);
    assert_eq!(
        lod_candidates("mesh", "ply", 2),
        vec!["mesh.lod2.ply".to_string(), "mesh_lod2.ply".to_string()]
    );
    assert_eq!(lod_candidates("mesh", "", 1), vec!["mesh.lod1".to_string(), "mesh_lod1".to_string()]);
}

#[test]
fn share_queries_windows_and_annotations() {
    let q = |offset: Option<u64>, limit: Option<u64>| ShareAssetQuery { download: None, lod: None, offset, limit };
    assert_eq!(share_query_window(q(None, None)), None);
    assert_eq!(share_query_window(q(Some(0), Some(0))), None);
    assert_eq!(share_query_window(q(Some(10), None)), Some((10, None)));
    assert_eq!(share_query_window(q(None, Some(5))), Some((0, Some(5))));
    assert_eq!(range_length(10, 19), 10);
    assert_eq!(range_length(5, 5), 1);
    assert_eq!(range_length(0, u64::MAX), u64::MAX);
    assert_eq!(share_last_access(Some(5), Some(9)), Some(5));
    assert_eq!(share_last_access(None, Some(9)), Some(9));
    let any = ShareAnnotationQuery { layer: None, asset_path: None };
    assert_eq!(share_annotation_target(&any, "output/m.glb", false), Err("Embeds disabled"));
    assert_eq!(
        share_annotation_target(&any, "output/m.glb", true),
        Ok(("default".to_string(), "output/m.glb".to_string()))
    );
    let other = ShareAnnotationQuery { layer: Some("qa".to_string()), asset_path: Some("output/x.glb".to_string()) };
    assert_eq!(share_annotation_target(&other, "output/m.glb", true), Err("Asset mismatch"));
    assert!(should_generate_lods(None));
    assert!(should_generate_lods(Some("YES")));
    assert!(!should_generate_lods(Some("0")));
}

#[test]
fn device_entries_are_classified() {
    assert_eq!(camera_entry(true, false), (DeviceType::DepthCamera, DeviceStatus::Disconnected, ConnectionType::Usb));
    assert_eq!(camera_entry(false, true), (DeviceType::Camera, DeviceStatus::Connected, ConnectionType::Usb));
    assert_eq!(phone_status(true), DeviceStatus::Ready);
    assert_eq!(phone_status(false), DeviceStatus::Connected);
    assert_eq!(
        storage_entry("sda1", true),
        ("storage:sda1".to_string(), "Storage sda1".to_string(), ConnectionType::Usb)
    );
    assert_eq!(storage_entry("nfs", false).2, ConnectionType::Network);
    assert_eq!(DeviceType::RobotArm.as_str(), "robot_arm");
    assert_eq!(ConnectionType::Bluetooth.as_str(), "bluetooth");
    assert_eq!(DeviceStatus::Initializing.as_str(), "initializing");
}

#[test]
fn edit_outputs_are_named_from_the_stamp_and_id() {
    assert_eq!(edit_group_at("20240102T030405Z"), "edits/20240102T030405Z");
    assert_eq!(edit_output_name_with(EditKind::Mesh, None, "id1"), "mesh_edit_id1.ply");
    assert_eq!(edit_output_name_with(EditKind::Splat, None, "id2"), "splat_edit_id2.splat");
    assert_eq!(edit_output_name_with(EditKind::Mesh, Some("mine.ply".to_string()), "id3"), "mine.ply");
    assert_eq!(edit_history_path(), "output/edits/history.json");
    assert!(writes_spz(None));
    assert!(!writes_spz(Some(false)));
}

#[test]
fn saved_points_take_defaults_for_what_they_lack() {
    assert_eq!(
        point_defaults_with(None, None, None, Some("ann".to_string()), 77, "fresh".to_string()),
        ("fresh".to_string(), 77, Some("ann".to_string()))
    );
    assert_eq!(
        point_defaults_with(Some("p1".to_string()), Some(5), Some("bob".to_string()), Some("ann".to_string()), 77, "fresh".to_string()),
        ("p1".to_string(), 5, Some("bob".to_string()))
    );
}

#[test]
fn capture_sequences_and_intervalometers() {
    assert_eq!(bracket_base_shutter(Some("1/60".to_string()), Some("1/30".to_string())), Some("1/60".to_string()));
    assert_eq!(bracket_base_shutter(None, Some("1/30".to_string())), Some("1/30".to_string()));
    assert_eq!(bracket_base_shutter(None, None), None);
    let c = CaptureSequenceResult::captured(vec!["a.jpg".to_string()]);
    assert_eq!(c.status, "captured");
    assert_eq!(c.shots, vec!["a.jpg".to_string()]);
    assert!(intervalometer_finished(Some(3), 3));
    assert!(!intervalometer_finished(Some(3), 2));
    assert!(!intervalometer_finished(None, 1000));
    let req = |bracket_count: u8, slice_count: u32, step_size: i32, direction: &str| HdrFocusStackRequest {
        bracket_count,
        ev_spacing: 1,
        base_shutter: None,
        slice_count,
        step_size,
        direction: direction.to_string(),
        capture_target: None,
    };
    assert_eq!(hdr_focus_stack_step(&req(2, 5, 10, "near")), Err("bracket_count must be an odd number >= 3"));
    assert_eq!(hdr_focus_stack_step(&req(3, 1, 10, "near")), Err("slice_count must be >= 2"));
    assert_eq!(hdr_focus_stack_step(&req(3, 5, 500, "FAR")), Ok(-200));
    assert_eq!(hdr_focus_stack_step(&req(5, 5, -7, "near")), Ok(7));
}

#[test]
fn report_fields_are_bounded() {
    assert_eq!(bounded_string(&Some("abc".to_string()), 3), Some("abc".to_string()));
    assert_eq!(bounded_string(&Some("é".to_string()), 1), None);
    assert_eq!(bounded_string(&None, 10), None);
    assert_eq!(bounded_dimension(Some(0)), None);
    assert_eq!(bounded_dimension(Some(200000)), Some(200000));
    assert_eq!(bounded_dimension(Some(200001)), None);
    assert_eq!(fusion_artifact_keys()[0], "source");
    assert_eq!(fusion_artifact_keys()[7], "overlay");
    assert_eq!(fusion_metric_names().len(), 11);
    assert_eq!(fusion_metric_names()[10], "detail_reference_pixels");
    assert_eq!(fusion_report_limit(FusionReportQuery { limit: None }), 32);
    assert_eq!(fusion_report_limit(FusionReportQuery { limit: Some(0) }), 1);
    assert_eq!(fusion_report_limit(FusionReportQuery { limit: Some(1000) }), 128);
    assert!(replaces_candidate(true, 100, false, 50));
    assert!(replaces_candidate(false, 100, true, 101));
    assert!(!replaces_candidate(false, 100, false, 100));
}

#[test]
fn licences_uploads_jobs_and_scans() {
    let update = ProjectLicense { title: Some("CC-BY".to_string()), ..ProjectLicense::default() };
    let stamped = stamp_license(update, "2024-05-01T00:00:00Z".to_string());
    assert_eq!(stamped.title.as_deref(), Some("CC-BY"));
    assert_eq!(stamped.updated_at.as_deref(), Some("2024-05-01T00:00:00Z"));
    assert_eq!(upload_limits(None, None), (10737418240, 107374182400));
    assert_eq!(upload_limits(Some(5), Some(6)), (5, 6));
    assert_eq!(validate_path_str("workspace_path", true), Ok(()));
    assert_eq!(validate_path_str("dslr_path", false), Err("dslr_path does not exist".to_string()));
    assert_eq!(job_max_attempts(None), 3);
    assert_eq!(job_max_attempts(Some(7)), 7);
    assert!(adds_webhook(true, true, false));
    assert!(!adds_webhook(true, true, true));
    assert!(!adds_webhook(true, false, false));
    assert!(auto_capture(None));
    assert!(!auto_capture(Some(StartScanRequest { auto_capture: Some(false) })));
    assert!(scan_may_start(None));
    assert!(scan_may_start(Some("complete")));
    assert!(!scan_may_start(Some("paused")));
    assert_eq!(trial_bundles(&TrialRequest { duration_days: None, bundles: None }), Vec::<String>::new());
    assert_eq!(
        trial_bundles(&TrialRequest { duration_days: Some(3), bundles: Some(vec!["pro".to_string()]) }),
        vec!["pro".to_string()]
    );
    assert_eq!(trial_device_key(Some("h1")), Some("trial_self_issued:device:h1".to_string()));
    assert_eq!(trial_device_key(None), None);
    assert_eq!(xr_session_target("s-1"), "xr/session/s-1");
    assert_eq!(color_frame_index(None, 0), None);
    assert_eq!(color_frame_index(None, 4), Some(3));
    assert_eq!(color_frame_index(Some(1), 4), Some(1));
    assert_eq!(color_frame_index(Some(9), 4), Some(3));
}
