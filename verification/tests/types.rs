use db_gateway::embeddings::EmbeddingError;
use db_gateway::snapshots;
use db_gateway::urls;
use db_gateway::validate_url;

#[test]
fn absolute_url_with_host_is_valid() {
    assert_eq!(validate_url("https://example.com"), Ok(true));
    assert_eq!(validate_url("http://example.com/path?q=1"), Ok(true));
}

#[test]
fn relative_url_is_invalid() {
    assert_eq!(validate_url("not-a-url"), Ok(false));
    assert_eq!(validate_url("/just/a/path"), Ok(false));
}

#[test]
fn absolute_url_without_host_is_invalid() {
    assert_eq!(validate_url("data:text/plain,hello"), Ok(false));
}

#[test]
fn unparsable_url_is_an_error() {
    assert!(validate_url("http://").is_err());
}

#[test]
fn content_starts_uncrawled() {
    let c = urls::Content::from_url("https://example.com");
    assert_eq!(c.url, Some("https://example.com".to_string()));
    assert_eq!(c.crawled_at, None);
}

#[test]
fn set_timestamp_stamps_the_content() {
    let mut c = urls::Content::from_url("https://example.com");
    c.set_timestamp();
    assert!(c.crawled_at.is_some());
    assert_eq!(c.url, Some("https://example.com".to_string()));
}

#[test]
fn payloads_carry_optional_fields() {
    let p = urls::Payload { url: None };
    assert!(p.url.is_none());
    let q = snapshots::Payload {
        url: Some("https://example.com".to_string()),
        html: None,
    };
    assert_eq!(q.url, Some("https://example.com".to_string()));
    assert!(q.html.is_none());
}

#[test]
fn duplicate_test_compares_byte_for_byte() {
    let last = "<html>v1</html>".to_string();
    assert!(snapshots::is_duplicate(Some(&last), "<html>v1</html>"));
    assert!(!snapshots::is_duplicate(Some(&last), "<html>v2</html>"));
    assert!(!snapshots::is_duplicate(None, "<html>v1</html>"));
}

#[test]
fn embedding_error_keeps_its_message() {
    let e = EmbeddingError::new("service unavailable");
    assert_eq!(e.message(), "service unavailable");
}
