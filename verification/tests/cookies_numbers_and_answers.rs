use trueshot_server::auth::{build_cookie, build_csrf_cookie, build_refresh_cookie, guest_token_scopes};
use trueshot_server::hardware::{contains_string, parse_u32_str, parse_u64_str, parse_usize_str};
use trueshot_server::project_asset::{OpenedProjectAsset, ResponsePlan};

#[test]
fn session_cookies_differ_only_in_script_access() {
    let refresh = build_refresh_cookie("ts_refresh", "r-tok", 3600, Some(true));
    assert_eq!(refresh.name, "ts_refresh");
    assert_eq!(refresh.value, "r-tok");
    assert_eq!(refresh.path, "/");
    assert_eq!(refresh.max_age_seconds, 3600);
    assert!(refresh.http_only);
    assert!(refresh.secure);
    assert!(refresh.same_site_lax);
    let csrf = build_csrf_cookie("ts_csrf", "c-tok", 60, None);
    assert!(!csrf.http_only);
    assert!(!csrf.secure);
    assert_eq!(csrf.max_age_seconds, 60);
    let plain = build_cookie("n", "v", 1, false, Some(false));
    assert!(!plain.secure);
    assert!(!plain.http_only);
}

#[test]
fn guest_tokens_carry_the_guest_scopes() {
    assert_eq!(
        guest_token_scopes(),
        vec![
            "stream:read".to_string(),
            "system:read".to_string(),
            "guest:connect".to_string(),
            "phone:connect".to_string()
        ]
    );
}

#[test]
fn numbers_parse_as_the_standard_library_does() {
    assert_eq!(parse_u32_str("42"), Some(42));
    assert_eq!(parse_u32_str("+7"), Some(7));
    assert_eq!(parse_u32_str("4294967296"), None);
    assert_eq!(parse_u32_str("-1"), None);
    assert_eq!(parse_u32_str(""), None);
    assert_eq!(parse_u64_str("18446744073709551615"), Some(u64::MAX));
    assert_eq!(parse_u64_str("18446744073709551616"), None);
    assert_eq!(parse_u64_str("12a"), None);
    assert_eq!(parse_usize_str("1024"), Some(1024));
    assert_eq!(parse_usize_str(" 1"), None);
    let list = vec!["a".to_string(), "bc".to_string()];
    assert!(contains_string(&list, "bc"));
    assert!(!contains_string(&list, "b"));
}

#[test]
fn assets_are_shown_inline_by_their_guessed_type() {
    let png = OpenedProjectAsset::new((), 100, "output/photo.png".to_string());
    assert_eq!(
        png.response_plan(None, None, false),
        ResponsePlan::Stream { partial: false, offset: 0, length: 100, content_range: None, attachment: false }
    );
    let zip = OpenedProjectAsset::new((), 100, "output/bundle.zip".to_string());
    assert_eq!(
        zip.response_plan(None, None, false),
        ResponsePlan::Stream { partial: false, offset: 0, length: 100, content_range: None, attachment: true }
    );
    assert_eq!(
        png.response_plan(Some((10, Some(5))), None, true),
        ResponsePlan::Stream {
            partial: true,
            offset: 10,
            length: 5,
            content_range: Some("bytes 10-14/100".to_string()),
            attachment: true
        }
    );
    assert_eq!(
        png.response_plan(None, Some(Some("bytes=200-")), false),
        ResponsePlan::RangeNotSatisfiable { content_range: "bytes */100".to_string() }
    );
    assert_eq!(png.response_plan(None, Some(None), false), ResponsePlan::InvalidRangeHeader);
}
