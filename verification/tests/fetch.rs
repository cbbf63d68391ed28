use hack_scraper::error::FetchError;
use hack_scraper::fetch::{check_response, is_success, FetchOutcome, PageSource, FRONT_PAGE};

fn response(status: u16, body: &str) -> FetchOutcome {
    FetchOutcome::Response { status, body: body.to_string() }
}

#[test]
fn success_is_the_range_200_to_299() {
    assert!(!is_success(0));
    assert!(!is_success(199));
    assert!(is_success(200));
    assert!(is_success(204));
    assert!(is_success(299));
    assert!(!is_success(300));
    assert!(!is_success(404));
    assert!(!is_success(503));
    assert!(!is_success(u16::MAX));
}

#[test]
fn success_status_lets_the_body_through() {
    assert_eq!(check_response(response(200, "<html></html>")), Ok("<html></html>".to_string()));
    assert_eq!(check_response(response(299, "x")), Ok("x".to_string()));
    assert_eq!(check_response(response(200, "")), Ok(String::new()));
}

#[test]
fn every_other_status_is_a_bad_status() {
    for status in [0u16, 100, 199, 300, 301, 404, 500, 503, 65535] {
        assert_eq!(
            check_response(response(status, "<html>body</html>")),
            Err(FetchError::BadStatus(status))
        );
    }
}

#[test]
fn transport_failure_keeps_its_details() {
    assert_eq!(
        check_response(FetchOutcome::Failed("connection refused".to_string())),
        Err(FetchError::Transport("connection refused".to_string()))
    );
}

#[test]
fn page_source_keeps_its_address() {
    assert_eq!(FRONT_PAGE, "https://news.ycombinator.com");
    assert_eq!(PageSource::front_page().url(), "https://news.ycombinator.com");
    assert_eq!(PageSource::new("http://localhost:8080/x?y=z").url(), "http://localhost:8080/x?y=z");
    assert_eq!(PageSource::new("").url(), "");
    assert_eq!(PageSource::new("not a url").url(), "not a url");
    assert_eq!(PageSource::new(FRONT_PAGE), PageSource::front_page());
}
