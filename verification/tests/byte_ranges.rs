use trueshot_server::project_asset::{
    mime_allows_inline, offset_limit_range, parse_range_header, plan_response, range_not_satisfiable,
    OpenedProjectAsset, ResponsePlan,
};

#[test]
fn range_parser_accepts_single_bounded_open_and_suffix_ranges() {
    assert_eq!(parse_range_header("bytes=2-5", 10), Ok((2, 5)));
    assert_eq!(parse_range_header("bytes=7-", 10), Ok((7, 9)));
    assert_eq!(parse_range_header("bytes=-3", 10), Ok((7, 9)));
    assert_eq!(parse_range_header("bytes=-99", 10), Ok((0, 9)));
}

#[test]
fn range_parser_rejects_empty_zero_length_and_multi_ranges() {
    assert!(parse_range_header("bytes=-0", 10).is_err());
    assert!(parse_range_header("bytes=5-4", 10).is_err());
    assert!(parse_range_header("bytes=0-1,4-5", 10).is_err());
    assert!(parse_range_header("bytes=0-0", 0).is_err());
}

#[test]
fn offset_limit_is_overflow_safe_and_bounded() {
    assert_eq!(offset_limit_range(10, 3, Some(4)), Ok((3, 6)));
    assert_eq!(offset_limit_range(10, 3, Some(u64::MAX)), Ok((3, 9)));
    assert!(offset_limit_range(10, 10, None).is_err());
    assert!(offset_limit_range(10, 3, Some(0)).is_err());
}

#[test]
fn range_end_past_the_file_is_clamped() {
    assert_eq!(parse_range_header("bytes=4-100", 10), Ok((4, 9)));
    assert_eq!(parse_range_header("  bytes=0-0  ", 1), Ok((0, 0)));
}

#[test]
fn range_parser_rejects_other_units_and_starts_past_the_end() {
    assert!(parse_range_header("items=0-1", 10).is_err());
    assert!(parse_range_header("bytes=10-", 10).is_err());
    assert!(parse_range_header("bytes=a-b", 10).is_err());
}

#[test]
fn offset_without_limit_reaches_the_end() {
    assert_eq!(offset_limit_range(10, 0, None), Ok((0, 9)));
    assert!(offset_limit_range(0, 0, None).is_err());
}

#[test]
fn unsatisfiable_range_names_the_size() {
    assert_eq!(range_not_satisfiable(42), "bytes */42");
}

#[test]
fn images_and_models_show_inline_others_download() {
    assert!(mime_allows_inline("image", "png"));
    assert!(!mime_allows_inline("application", "zip"));
}

#[test]
fn a_range_header_gives_a_partial_answer() {
    match plan_response(10, None, Some(Some("bytes=2-5")), false, "image", "png") {
        ResponsePlan::Stream { partial, offset, length, content_range, attachment } => {
            assert!(partial);
            assert_eq!(offset, 2);
            assert_eq!(length, 4);
            assert_eq!(content_range, Some("bytes 2-5/10".to_string()));
            assert!(!attachment);
        }
        other => panic!("unexpected plan {:?}", other),
    }
}

#[test]
fn an_unsatisfiable_header_is_answered_416() {
    match plan_response(10, None, Some(Some("bytes=20-30")), false, "image", "png") {
        ResponsePlan::RangeNotSatisfiable { content_range } => assert_eq!(content_range, "bytes */10"),
        other => panic!("unexpected plan {:?}", other),
    }
    assert_eq!(plan_response(10, None, Some(None), false, "image", "png"), ResponsePlan::InvalidRangeHeader);
}

#[test]
fn no_range_streams_the_whole_asset() {
    match plan_response(10, None, None, true, "image", "png") {
        ResponsePlan::Stream { partial, offset, length, content_range, attachment } => {
            assert!(!partial);
            assert_eq!(offset, 0);
            assert_eq!(length, 10);
            assert_eq!(content_range, None);
            assert!(attachment);
        }
        other => panic!("unexpected plan {:?}", other),
    }
}

#[test]
fn opened_asset_keeps_its_length_and_path() {
    let asset = OpenedProjectAsset::new(vec![1u8, 2, 3], 3, "output/a.bin".to_string());
    assert_eq!(asset.plaintext_len(), 3);
    assert_eq!(asset.logical_path(), "output/a.bin");
    assert!(asset.exceeds_read_limit(2));
    assert!(!asset.exceeds_read_limit(3));
    assert_eq!(asset.into_reader(), vec![1u8, 2, 3]);
}
