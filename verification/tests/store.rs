use db_gateway::model::{StoreError, SubmitOutcome, WriteOutcome};
use db_gateway::store::ContentStore;

#[test]
fn submit_twice_is_idempotent() {
    let mut s = ContentStore::new();
    let first = s.submit_url("https://example.com/a", 1);
    let second = s.submit_url("https://example.com/a", 2);
    assert_eq!(first, Ok(SubmitOutcome::Inserted));
    assert_eq!(second, Ok(SubmitOutcome::AlreadyExists));
    assert_eq!(s.urls.len(), 1);
    assert_eq!(s.urls[0].updated_at, 1);
}

#[test]
fn identical_content_is_deduplicated() {
    let mut s = ContentStore::new();
    s.submit_url("https://example.com/a", 1).unwrap();
    let first = s.record_snapshot("https://example.com/a", "<html>same</html>", 2);
    let second = s.record_snapshot("https://example.com/a", "<html>same</html>", 3);
    assert_eq!(first, Ok(WriteOutcome::Inserted));
    assert_eq!(second, Ok(WriteOutcome::Duplicate));
    assert_eq!(s.snapshots.len(), 1);
}

#[test]
fn changed_content_extends_history() {
    let mut s = ContentStore::new();
    s.submit_url("https://example.com/a", 1).unwrap();
    let first = s.record_snapshot("https://example.com/a", "<html>v1</html>", 2);
    let second = s.record_snapshot("https://example.com/a", "<html>v2</html>", 3);
    assert_eq!(first, Ok(WriteOutcome::Inserted));
    assert_eq!(second, Ok(WriteOutcome::Inserted));
    assert_eq!(s.snapshots.len(), 2);
    assert_eq!(s.snapshots[1].content, "<html>v2</html>".to_string());
    let second_id = s.snapshots[1].id;
    assert_eq!(s.urls[0].snapshot_id, Some(second_id));
}

#[test]
fn selector_prefers_oldest_pending() {
    let mut s = ContentStore::new();
    s.submit_url("https://a.example", 1).unwrap();
    s.submit_url("https://b.example", 2).unwrap();
    assert_eq!(s.next_url(), Some("https://a.example".to_string()));
}

#[test]
fn selector_breaks_ties_by_insertion_order() {
    let mut s = ContentStore::new();
    s.submit_url("https://a.example", 7).unwrap();
    s.submit_url("https://b.example", 7).unwrap();
    assert_eq!(s.next_url(), Some("https://a.example".to_string()));
}

#[test]
fn selector_prefers_pending_over_older_crawled() {
    let mut s = ContentStore::new();
    s.submit_url("https://a.example", 1).unwrap();
    s.submit_url("https://b.example", 5).unwrap();
    s.record_snapshot("https://a.example", "body", 6).unwrap();
    assert_eq!(s.next_url(), Some("https://b.example".to_string()));
}

#[test]
fn selector_falls_back_to_oldest_updated() {
    let mut s = ContentStore::new();
    s.submit_url("https://a.example", 1).unwrap();
    s.submit_url("https://b.example", 2).unwrap();
    s.record_snapshot("https://a.example", "body a", 10).unwrap();
    s.record_snapshot("https://b.example", "body b", 11).unwrap();
    assert_eq!(s.next_url(), Some("https://a.example".to_string()));
}

#[test]
fn empty_store_yields_no_url() {
    let s = ContentStore::new();
    assert_eq!(s.next_url(), None);
}

#[test]
fn invalid_url_is_rejected_without_write() {
    let mut s = ContentStore::new();
    let r = s.record_snapshot("not-a-url", "<html></html>", 1);
    assert_eq!(r, Err(StoreError::InvalidUrl));
    assert_eq!(s.snapshots.len(), 0);
    assert_eq!(s.urls.len(), 0);
}

#[test]
fn invalid_url_submission_is_rejected() {
    let mut s = ContentStore::new();
    assert_eq!(s.submit_url("not-a-url", 1), Err(StoreError::InvalidUrl));
    assert_eq!(s.submit_url("data:text/plain,x", 1), Err(StoreError::InvalidUrl));
    assert_eq!(s.urls.len(), 0);
}

#[test]
fn snapshot_for_untracked_url_keeps_history() {
    let mut s = ContentStore::new();
    let r = s.record_snapshot("https://example.com/a", "body", 1);
    assert_eq!(r, Ok(WriteOutcome::Inserted));
    assert_eq!(s.snapshots.len(), 1);
    assert_eq!(s.urls.len(), 0);
}

#[test]
fn mark_crawled_stamps_the_row() {
    let mut s = ContentStore::new();
    s.submit_url("https://example.com/a", 1).unwrap();
    assert_eq!(s.mark_crawled("https://example.com/a", 9), Ok(()));
    assert_eq!(s.urls[0].crawled_at, Some(9));
    assert_eq!(s.urls[0].updated_at, 9);
    assert_eq!(s.mark_crawled("https://example.com/a", 12), Ok(()));
    assert_eq!(s.urls[0].crawled_at, Some(12));
}

#[test]
fn mark_crawled_on_unknown_url_is_a_noop() {
    let mut s = ContentStore::new();
    assert_eq!(s.mark_crawled("https://example.com/a", 9), Ok(()));
    assert_eq!(s.urls.len(), 0);
}

#[test]
fn delete_removes_the_row_but_not_history() {
    let mut s = ContentStore::new();
    s.submit_url("https://example.com/a", 1).unwrap();
    s.record_snapshot("https://example.com/a", "body", 2).unwrap();
    s.delete_url("https://example.com/a");
    assert_eq!(s.urls.len(), 0);
    assert_eq!(s.snapshots.len(), 1);
    assert_eq!(s.next_url(), None);
    assert_eq!(s.submit_url("https://example.com/a", 3), Ok(SubmitOutcome::Inserted));
}

#[test]
fn exhausted_id_space_is_a_storage_error() {
    let mut s = ContentStore {
        urls: vec![],
        snapshots: vec![],
        next_id: u64::MAX,
    };
    assert_eq!(s.submit_url("https://example.com/a", 1), Err(StoreError::Storage));
    assert_eq!(s.record_snapshot("https://example.com/a", "body", 1), Err(StoreError::Storage));
    assert_eq!(s.urls.len(), 0);
    assert_eq!(s.snapshots.len(), 0);
}

#[test]
fn snapshot_rows_record_what_was_given() {
    let mut s = ContentStore::new();
    s.submit_url("https://example.com/a", 1).unwrap();
    s.record_snapshot("https://example.com/a", "<html>v1</html>", 5).unwrap();
    assert_eq!(s.snapshots[0].url, "https://example.com/a".to_string());
    assert_eq!(s.snapshots[0].content, "<html>v1</html>".to_string());
    assert_eq!(s.snapshots[0].created_at, 5);
    assert_eq!(s.urls[0].updated_at, 5);
}
