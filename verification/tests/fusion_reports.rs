use trueshot_server::listing::FusionCandidate;
use trueshot_server::listing::{merge_candidate, rank_candidates};
use trueshot_server::project::{
    finish_fusion_report, fusion_report_candidate, is_allowed_fusion_artifact, is_portable_png_filename,
    is_safe_relative_path, parse_flag_legend, parse_u8_legend, validate_fusion_report, FlagLegendEntry,
    FusionReportFields,
};

fn valid_fields() -> FusionReportFields {
    FusionReportFields {
        schema: Some("trueshot.fusion.provenance.v2".to_string()),
        width: Some(64),
        height: Some(48),
        archival_policy: Some("measured_sources_only_no_generative_reconstruction".to_string()),
        demosaic_generative_reconstruction: Some(false),
        demosaic_fallback: Some(false),
        demosaic_backend: Some("metal_ahd".to_string()),
        demosaic_adapter: Some("Apple M1".to_string()),
        artifact_files: vec![
            Some("capture_source_map.png".to_string()),
            Some("capture_detail_source_map.png".to_string()),
            Some("capture_fusion_flags.png".to_string()),
            Some("capture_frequency_flags.png".to_string()),
            Some("capture_sensor_correction_map.png".to_string()),
            Some("capture_glare_map.png".to_string()),
            Some("capture_boundary_trimap.png".to_string()),
            Some("capture_fusion_overlay.png".to_string()),
        ],
        noise_model_calibrated: Some(true),
        lens_psf_calibrated: Some(true),
        metrics: vec![None; 11],
        physical_focus_policy: Some("calibrated_breathing_pupil_field_psf".to_string()),
        boundary_policy: Some("single_traceable_measured_focus_plane_no_cross_depth_interpolation".to_string()),
        glare_policy: Some("focus_evidence_suppression_only_measured_radiance_unchanged".to_string()),
        frequency_policy: Some("same_cfa_sparse_low_detail_measured_sources_only_envelope_clamped".to_string()),
        sensor_correction_id: None,
        lens_psf_calibration_id: None,
    }
}

fn flag_legend() -> Vec<FlagLegendEntry> {
    vec![FlagLegendEntry { name: "disoccluded".to_string(), is_object: true, bit: Some(128), pixels: Some(12) }]
}

#[test]
fn fusion_report_parser_returns_only_bounded_safe_manifest() {
    let fields = valid_fields();
    let plan = validate_fusion_report(&fields, "capture_fusion_report.json").unwrap();
    let found = vec![(true, Some(3u64)); 8];
    let summary = finish_fusion_report(plan, &fields, "capture_fusion_report.json", &found);
    let flags = parse_flag_legend(&flag_legend());

    assert_eq!(summary.schema, "trueshot.fusion.provenance.v2");
    assert_eq!(summary.width, 64);
    assert_eq!(summary.height, 48);
    assert!(summary.integrity_complete);
    assert!(summary.warnings.is_empty());
    let disoccluded = flags.iter().find(|(name, _)| name == "disoccluded").unwrap();
    assert_eq!(disoccluded.1.pixels, 12);
    let overlay = summary.artifacts.iter().find(|(key, _)| key == "overlay").unwrap();
    assert_eq!(overlay.1.path, "capture_fusion_overlay.png");
    assert!(!summary.demosaic.generative_reconstruction);
}

#[test]
fn fusion_report_parser_rejects_artifact_path_escape() {
    let mut fields = valid_fields();
    fields.artifact_files[7] = Some("../secret.png".to_string());
    let result = validate_fusion_report(&fields, "capture_fusion_report.json");
    assert!(result.is_err());
}

#[test]
fn fusion_report_parser_rejects_generative_archival_claims() {
    let mut fields = valid_fields();
    fields.demosaic_generative_reconstruction = Some(true);
    let result = validate_fusion_report(&fields, "capture_fusion_report.json");
    assert!(result.is_err());
}

#[test]
fn fusion_artifact_allowlist_is_narrow() {
    assert!(is_allowed_fusion_artifact("nested/capture_fusion_overlay.png"));
    assert!(is_allowed_fusion_artifact("capture_source_map.png"));
    assert!(!is_allowed_fusion_artifact("capture_fusion_report.json"));
    assert!(!is_allowed_fusion_artifact("capture.tiff"));
}

#[test]
fn each_report_refusal_names_the_first_failed_check() {
    let mut f = valid_fields();
    f.schema = None;
    assert_eq!(validate_fusion_report(&f, "r_fusion_report.json").unwrap_err(), "Missing fusion schema");
    let mut f = valid_fields();
    f.schema = Some("other".to_string());
    assert_eq!(validate_fusion_report(&f, "r_fusion_report.json").unwrap_err(), "Unsupported fusion schema");
    let mut f = valid_fields();
    f.width = Some(0);
    assert_eq!(validate_fusion_report(&f, "r_fusion_report.json").unwrap_err(), "Invalid fusion width");
    let mut f = valid_fields();
    f.height = Some(200_001);
    assert_eq!(validate_fusion_report(&f, "r_fusion_report.json").unwrap_err(), "Invalid fusion height");
    let mut f = valid_fields();
    f.width = Some(200_000);
    f.height = Some(200_000);
    assert_eq!(
        validate_fusion_report(&f, "r_fusion_report.json").unwrap_err(),
        "Fusion dimensions exceed supported pixel count"
    );
    let mut f = valid_fields();
    f.archival_policy = None;
    assert_eq!(validate_fusion_report(&f, "r_fusion_report.json").unwrap_err(), "Missing archival policy");
    let mut f = valid_fields();
    f.archival_policy = Some("anything".to_string());
    assert_eq!(validate_fusion_report(&f, "r_fusion_report.json").unwrap_err(), "Fusion report is not measurement-only");
    let mut f = valid_fields();
    f.demosaic_generative_reconstruction = None;
    assert_eq!(
        validate_fusion_report(&f, "r_fusion_report.json").unwrap_err(),
        "Missing generative reconstruction policy"
    );
    assert_eq!(validate_fusion_report(&valid_fields(), "../r_fusion_report.json").unwrap_err(), "Invalid fusion report path");
    assert_eq!(validate_fusion_report(&valid_fields(), "/abs/r_fusion_report.json").unwrap_err(), "Invalid fusion report path");
    let mut f = valid_fields();
    f.artifact_files[2] = None;
    assert_eq!(validate_fusion_report(&f, "r_fusion_report.json").unwrap_err(), "Missing fusion artifact");
    let mut f = valid_fields();
    f.artifact_files[2] = Some("flags.tiff".to_string());
    assert_eq!(
        validate_fusion_report(&f, "r_fusion_report.json").unwrap_err(),
        "Fusion artifact must be a portable PNG filename"
    );
}

#[test]
fn artifacts_resolve_against_the_report_directory() {
    let fields = valid_fields();
    let plan = validate_fusion_report(&fields, "scans/day1/capture_fusion_report.json").unwrap();
    assert_eq!(plan.artifact_paths[7], "scans/day1/capture_fusion_overlay.png");
    assert_eq!(plan.artifact_paths[0], "scans/day1/capture_source_map.png");
}

#[test]
fn missing_artifacts_and_uncalibrated_models_are_warned() {
    let mut fields = valid_fields();
    fields.noise_model_calibrated = None;
    fields.lens_psf_calibrated = Some(false);
    fields.demosaic_fallback = Some(true);
    fields.metrics[1] = Some(7);
    fields.physical_focus_policy = None;
    let plan = validate_fusion_report(&fields, "capture_fusion_report.json").unwrap();
    let mut found = vec![(true, Some(3u64)); 8];
    found[7] = (false, None);
    let summary = finish_fusion_report(plan, &fields, "capture_fusion_report.json", &found);
    assert!(!summary.integrity_complete);
    assert_eq!(
        summary.warnings,
        vec![
            "Missing overlay artifact: capture_fusion_overlay.png".to_string(),
            "Noise model is uncalibrated; uncertainty is fallback-qualified.".to_string(),
            "Lens PSF is uncalibrated; physical focus uses ideal fallback.".to_string(),
            "Demosaic backend used a reported fallback.".to_string(),
        ]
    );
    assert_eq!(summary.metrics, vec![("depth_refusion_pixels".to_string(), 7)]);
    assert_eq!(summary.policy.focus, "unreported");
    assert_eq!(summary.label, "capture");
    assert!(summary.demosaic.fallback);
    assert!(!summary.calibration.noise_model_calibrated);
}

#[test]
fn reports_without_the_suffix_are_labelled_generically() {
    let fields = valid_fields();
    let plan = validate_fusion_report(&fields, "capture.json").unwrap();
    let found = vec![(true, None); 8];
    let summary = finish_fusion_report(plan, &fields, "capture.json", &found);
    assert_eq!(summary.label, "Fusion result");
}

#[test]
fn legends_keep_only_usable_entries() {
    let entries = vec![
        FlagLegendEntry { name: "a".to_string(), is_object: true, bit: Some(3), pixels: Some(1) },
        FlagLegendEntry { name: "b".to_string(), is_object: true, bit: Some(256), pixels: Some(1) },
        FlagLegendEntry { name: "c".to_string(), is_object: false, bit: Some(1), pixels: Some(1) },
        FlagLegendEntry { name: "d".to_string(), is_object: true, bit: Some(1), pixels: None },
    ];
    let flags = parse_flag_legend(&entries);
    assert_eq!(flags.len(), 1);
    assert_eq!(flags[0].0, "a");
    assert_eq!(flags[0].1.bit, 3);
    let bytes = parse_u8_legend(&vec![("x".to_string(), Some(255)), ("y".to_string(), Some(300)), ("z".to_string(), None)]);
    assert_eq!(bytes, vec![("x".to_string(), 255u8)]);
}

#[test]
fn portable_png_names_and_relative_paths() {
    assert!(is_portable_png_filename("map.PNG"));
    assert!(!is_portable_png_filename(".hidden.png"));
    assert!(!is_portable_png_filename("dir/map.png"));
    assert!(!is_portable_png_filename("dir\\map.png"));
    assert!(is_safe_relative_path("a/b/c.json"));
    assert!(is_safe_relative_path("a/..b/c.json"));
    assert!(!is_safe_relative_path("a/../c.json"));
    assert!(!is_safe_relative_path(".."));
}

#[test]
fn candidates_prefer_plain_and_newer_files() {
    assert_eq!(
        fusion_report_candidate("x/cap_fusion_report.json.enc"),
        Some(("x/cap_fusion_report.json".to_string(), true))
    );
    assert_eq!(fusion_report_candidate("x/cap_fusion_report.json"), Some(("x/cap_fusion_report.json".to_string(), false)));
    assert_eq!(fusion_report_candidate("x/other.json"), None);

    let mut cands: Vec<FusionCandidate> = Vec::new();
    let c = |l: &str, e: bool, m: i64| FusionCandidate { logical: l.to_string(), encrypted: e, modified: m, modified_label: None };
    merge_candidate(&mut cands, c("a", true, 5));
    merge_candidate(&mut cands, c("a", false, 1));
    assert_eq!(cands, vec![c("a", false, 1)]);
    merge_candidate(&mut cands, c("b", false, 9));
    merge_candidate(&mut cands, c("a", true, 1));
    assert_eq!(cands[0], c("a", false, 1));
    merge_candidate(&mut cands, c("a", true, 3));
    assert_eq!(cands.len(), 2);
    assert_eq!(cands[0], c("a", true, 3));

    let (ranked, truncated) = rank_candidates(vec![c("b", false, 5), c("a", false, 5), c("z", false, 9)], 2, 10);
    assert!(truncated);
    assert_eq!(ranked, vec![c("z", false, 9), c("a", false, 5)]);
    let (_, truncated) = rank_candidates(vec![c("b", false, 5)], 2, 20_001);
    assert!(truncated);
}
