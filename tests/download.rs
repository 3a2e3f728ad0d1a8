use cad_launcher::download::{
    bearer_header, check_response, drop_token_pairs, drawing_file_name, find_token, get_extension_from_url,
    is_success_status, plan_download_request, plan_from_query, plan_with_token, DownloadError,
};
use cad_launcher::text::decimal_text;

#[test]
fn token_moves_from_query_to_header() {
    let plan = plan_download_request("https://api.example.com/drawings/123?token=abc123");
    assert!(!plan.url.contains("token="));
    assert_eq!(plan.url, "https://api.example.com/drawings/123");
    assert_eq!(plan.authorization.as_deref(), Some("Bearer abc123"));
}

#[test]
fn token_among_other_pairs_is_found() {
    let plan = plan_download_request("https://h.example/d/7?page=2&token=x%20y");
    assert_eq!(plan.authorization.as_deref(), Some("Bearer x y"));
    assert!(!plan.url.contains("token="));
    assert_eq!(plan.url, "https://h.example/d/7?page=2");
}

#[test]
fn only_the_token_pair_is_stripped() {
    let plan = plan_download_request("https://example.com/d?a=1&token=t&b=2");
    assert_eq!(plan.url, "https://example.com/d?a=1&b=2");
    assert_eq!(plan.authorization.as_deref(), Some("Bearer t"));
}

#[test]
fn token_pairs_are_dropped_in_order() {
    let pairs = vec![
        ("a".to_string(), "1".to_string()),
        ("token".to_string(), "t1".to_string()),
        ("b".to_string(), "2".to_string()),
        ("token".to_string(), "t2".to_string()),
    ];
    let rest = drop_token_pairs(&pairs);
    assert_eq!(
        rest,
        vec![("a".to_string(), "1".to_string()), ("b".to_string(), "2".to_string())]
    );
    assert!(drop_token_pairs(&Vec::new()).is_empty());
}

#[test]
fn token_named_parameter_without_token_pair_keeps_url() {
    let plan = plan_download_request("https://h.example/d?mytoken=abc");
    assert_eq!(plan.url, "https://h.example/d?mytoken=abc");
    assert!(plan.authorization.is_none());
}

#[test]
fn url_without_token_is_kept() {
    let plan = plan_download_request("https://h.example/files/a.dwg?v=1");
    assert_eq!(plan.url, "https://h.example/files/a.dwg?v=1");
    assert!(plan.authorization.is_none());
}

#[test]
fn plan_from_given_pairs() {
    let pairs = vec![
        ("a".to_string(), "1".to_string()),
        ("token".to_string(), "t1".to_string()),
        ("token".to_string(), "t2".to_string()),
    ];
    assert_eq!(find_token(&pairs).as_deref(), Some("t1"));
    let plan = plan_from_query("http://h/x?a=1&token=t1", &pairs, "http://h/x".to_string());
    assert_eq!(plan.url, "http://h/x");
    assert_eq!(plan.authorization.as_deref(), Some("Bearer t1"));
    let none = plan_from_query("http://h/x?a=1", &pairs[..1].to_vec(), "http://h/x".to_string());
    assert_eq!(none.url, "http://h/x?a=1");
    assert!(none.authorization.is_none());
}

#[test]
fn explicit_token_is_preferred() {
    let plan = plan_with_token("https://h/d", Some("secret".to_string()));
    assert_eq!(plan.url, "https://h/d");
    assert_eq!(plan.authorization.as_deref(), Some("Bearer secret"));
    assert!(plan_with_token("https://h/d", None).authorization.is_none());
    assert_eq!(bearer_header("q"), "Bearer q");
}

#[test]
fn extension_inferred_from_url() {
    assert_eq!(get_extension_from_url("https://h.example/api/drawings/123"), "dxf");
    assert_eq!(get_extension_from_url("https://h.example/files/plan.dwg"), "dwg");
    assert_eq!(get_extension_from_url("https://h.example/files/plan.dxf"), "dxf");
    assert_eq!(get_extension_from_url("https://h.example/files/plan"), "dxf");
}

#[test]
fn drawing_file_names() {
    assert_eq!(drawing_file_name(Some(42), "https://h/drawings/42"), "drawing_42.dxf");
    assert_eq!(drawing_file_name(Some(0), "https://h/x.dwg"), "drawing_0.dwg");
    assert_eq!(drawing_file_name(None, "https://h/x.dwg"), "temp_drawing.dwg");
    assert_eq!(drawing_file_name(Some(u32::MAX), "u"), "drawing_4294967295.dxf");
}

#[test]
fn decimal_notation() {
    assert_eq!(decimal_text(0), "0");
    assert_eq!(decimal_text(7), "7");
    assert_eq!(decimal_text(1200), "1200");
}

#[test]
fn empty_body_is_distinct_from_status_failure() {
    assert!(matches!(check_response(200, String::new(), 0), Err(DownloadError::EmptyBody)));
    match check_response(404, "missing".to_string(), 0) {
        Err(DownloadError::HttpStatus { status, body }) => {
            assert_eq!(status, 404);
            assert_eq!(body, "missing");
        }
        other => panic!("unexpected {:?}", other),
    }
    assert!(check_response(299, String::new(), 5).is_ok());
    assert!(matches!(check_response(300, String::new(), 5), Err(DownloadError::HttpStatus { .. })));
    assert!(is_success_status(200));
    assert!(!is_success_status(199));
}

#[test]
fn error_messages_name_the_stage() {
    let e = DownloadError::HttpStatus { status: 404, body: "nf".to_string() };
    assert_eq!(e.message(), "HTTP error: 404 - nf");
    assert_eq!(DownloadError::EmptyBody.message(), "downloaded file is empty");
    assert_eq!(
        DownloadError::Network("refused".to_string()).message(),
        "network request failed: refused"
    );
    assert_eq!(
        DownloadError::CreateFile("denied".to_string()).message(),
        "failed to create temporary file: denied"
    );
    assert_eq!(
        DownloadError::WriteFile("full".to_string()).message(),
        "failed to write file: full"
    );
}
