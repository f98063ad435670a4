use shortcodes::error::ApiError;

#[test]
fn bad_request_reports_its_own_text() {
    let e = ApiError::BadRequest("value is empty".to_string());
    assert_eq!(e.message(), "value is empty");
    assert_eq!(e.response_parts(), (400, "value is empty".to_string()));
}

#[test]
fn not_found_is_status_404() {
    let e = ApiError::NotFound;
    assert_eq!(e.message(), "not found");
    assert_eq!(e.response_parts(), (404, "not found".to_string()));
}

#[test]
fn exhausted_is_status_507() {
    let e = ApiError::Exhausted;
    assert_eq!(e.message(), "short code space exhausted (max 5 base62 chars)");
    assert_eq!(
        e.response_parts(),
        (507, "short code space exhausted (max 5 base62 chars)".to_string())
    );
}

#[test]
fn store_failure_hides_its_detail_from_the_client() {
    let e = ApiError::Store("disk I/O error".to_string());
    assert_eq!(e.message(), "disk I/O error");
    assert_eq!(e.response_parts(), (500, "internal error".to_string()));
}
