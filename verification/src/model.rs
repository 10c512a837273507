//! Mathematical model of the content store.
//!
//! The store is modelled as two sequences — the tracked URL rows and the
//! append-only snapshot rows — plus an id counter.  Every executable
//! operation on [`crate::store::ContentStore`] promises that its effect
//! equals one of the transition functions below, so all reasoning about the
//! gateway's behaviour (idempotent submission, snapshot deduplication,
//! selector policy) happens over this model.

use vstd::prelude::*;
use crate::url_absolute_with_host;

verus! {

/// One tracked URL row: its opaque id, the URL itself, the advisory
/// last-crawl stamp, the reference to the newest snapshot (if any), and the
/// row's creation and last-update stamps (milliseconds).
#[verifier::ext_equal]
pub struct EntryModel {
    pub id: u64,
    pub url: Seq<char>,
    pub crawled_at: Option<u64>,
    pub snapshot_id: Option<u64>,
    pub created_at: u64,
    pub updated_at: u64,
}

/// One immutable snapshot row: its opaque id, the source URL, the captured
/// content payload, and the creation stamp.
#[verifier::ext_equal]
pub struct SnapModel {
    pub id: u64,
    pub url: Seq<char>,
    pub content: Seq<char>,
    pub created_at: u64,
}

/// The whole store: URL rows (in insertion order), snapshot rows (in
/// insertion order, append-only), and the next free row id.
#[verifier::ext_equal]
pub struct StoreModel {
    pub entries: Seq<EntryModel>,
    pub snaps: Seq<SnapModel>,
    pub next_id: u64,
}

/// Outcome of a snapshot submission: a new row was inserted, or the content
/// matched the latest snapshot for that URL byte for byte.
#[derive(Clone, Copy, Debug, PartialEq, Eq, Structural)]
pub enum WriteOutcome {
    Inserted,
    Duplicate,
}

/// Outcome of a URL submission: a new row was created, or the URL was
/// already tracked (submission is idempotent).
#[derive(Clone, Copy, Debug, PartialEq, Eq, Structural)]
pub enum SubmitOutcome {
    Inserted,
    AlreadyExists,
}

/// The errors a store operation can report.  `InvalidUrl` is a caller error
/// (the URL is not absolute with a host) and never leaves partial state;
/// `Storage` is the store-side fault (here: the id space is exhausted) and
/// is safe to retry.
#[derive(Clone, Copy, Debug, PartialEq, Eq, Structural)]
pub enum StoreError {
    InvalidUrl,
    Storage,
}

/// A URL row that has never received a snapshot reference: the primary
/// candidates of the crawl selector.
pub open spec fn pending(e: EntryModel) -> bool {
    e.snapshot_id is None
}

pub open spec fn has_entry(es: Seq<EntryModel>, url: Seq<char>) -> bool {
    exists|i: int| 0 <= i < es.len() && (#[trigger] es[i]).url == url
}

/// The index of the row tracking `url` (meaningful when `has_entry` holds;
/// under `urls_unique` it is the only such index).
pub open spec fn entry_index(es: Seq<EntryModel>, url: Seq<char>) -> int {
    choose|i: int| 0 <= i < es.len() && (#[trigger] es[i]).url == url
}

pub open spec fn has_snap(ss: Seq<SnapModel>, url: Seq<char>) -> bool {
    exists|i: int| 0 <= i < ss.len() && (#[trigger] ss[i]).url == url
}

/// `k` is the position of the most recent snapshot for `url`: it matches,
/// and nothing after it does.
pub open spec fn is_last_snap(ss: Seq<SnapModel>, url: Seq<char>, k: int) -> bool {
    &&& 0 <= k < ss.len()
    &&& ss[k].url == url
    &&& forall|j: int| k < j < ss.len() ==> (#[trigger] ss[j]).url != url
}

/// Submitting `content` for `url` now would duplicate the most recent
/// snapshot byte for byte.
pub open spec fn is_dup(ss: Seq<SnapModel>, url: Seq<char>, content: Seq<char>) -> bool {
    exists|k: int| #[trigger] is_last_snap(ss, url, k) && ss[k].content == content
}

// ---------------------------------------------------------------------------
// Well-formedness
// ---------------------------------------------------------------------------

/// No two rows track the same URL (re-submission must be idempotent).
pub open spec fn urls_unique(es: Seq<EntryModel>) -> bool {
    forall|i: int, j: int|
        0 <= i < j < es.len() ==> (#[trigger] es[i]).url != (#[trigger] es[j]).url
}

pub open spec fn entry_ids_unique(es: Seq<EntryModel>) -> bool {
    forall|i: int, j: int|
        0 <= i < j < es.len() ==> (#[trigger] es[i]).id != (#[trigger] es[j]).id
}

/// Every row id was drawn from the counter, so all sit below it.
pub open spec fn ids_in_range(m: StoreModel) -> bool {
    &&& forall|i: int| 0 <= i < m.entries.len() ==> (#[trigger] m.entries[i]).id < m.next_id
    &&& forall|i: int| 0 <= i < m.snaps.len() ==> (#[trigger] m.snaps[i]).id < m.next_id
}

/// Snapshot ids grow along the append-only history, so they are unique.
pub open spec fn snap_ids_increasing(ss: Seq<SnapModel>) -> bool {
    forall|i: int, j: int|
        0 <= i < j < ss.len() ==> (#[trigger] ss[i]).id < (#[trigger] ss[j]).id
}

/// A set snapshot reference points at an existing snapshot whose URL equals
/// the row's URL.
pub open spec fn ref_ok(ss: Seq<SnapModel>, e: EntryModel) -> bool {
    e.snapshot_id matches Some(sid) ==> exists|k: int|
        0 <= k < ss.len() && (#[trigger] ss[k]).id == sid && ss[k].url == e.url
}

pub open spec fn refs_valid(m: StoreModel) -> bool {
    forall|i: int| 0 <= i < m.entries.len() ==> ref_ok(m.snaps, #[trigger] m.entries[i])
}

/// The snapshot at `k` differs from the snapshot for the same URL that was
/// most recent when it was inserted.
pub open spec fn no_dup_at(ss: Seq<SnapModel>, k: int) -> bool {
    forall|j: int|
        #[trigger] is_last_snap(ss.take(k), ss[k].url, j) ==> ss[j].content != ss[k].content
}

/// Two consecutive snapshots for the same URL never hold identical content.
pub open spec fn history_deduped(ss: Seq<SnapModel>) -> bool {
    forall|k: int| 0 <= k < ss.len() ==> #[trigger] no_dup_at(ss, k)
}

/// The store's invariants, maintained by every operation.
pub open spec fn store_wf(m: StoreModel) -> bool {
    &&& urls_unique(m.entries)
    &&& entry_ids_unique(m.entries)
    &&& ids_in_range(m)
    &&& snap_ids_increasing(m.snaps)
    &&& refs_valid(m)
    &&& history_deduped(m.snaps)
}

// ---------------------------------------------------------------------------
// Transitions
// ---------------------------------------------------------------------------

pub open spec fn new_entry(id: u64, url: Seq<char>, now: u64) -> EntryModel {
    EntryModel {
        id,
        url,
        crawled_at: None,
        snapshot_id: None,
        created_at: now,
        updated_at: now,
    }
}

pub open spec fn new_snap(id: u64, url: Seq<char>, content: Seq<char>, now: u64) -> SnapModel {
    SnapModel { id, url, content, created_at: now }
}

/// The crawler's stamp: the row records the crawl time and counts as
/// freshly updated.
pub open spec fn crawl_stamp(e: EntryModel, now: u64) -> EntryModel {
    EntryModel { crawled_at: Some(now), updated_at: now, ..e }
}

/// The snapshot writer's link: the row points at snapshot `sid` and counts
/// as freshly updated.
pub open spec fn link_snapshot(e: EntryModel, sid: u64, now: u64) -> EntryModel {
    EntryModel { snapshot_id: Some(sid), updated_at: now, ..e }
}

/// Submitting a URL: rejected unless absolute with a host; a no-op when the
/// URL is already tracked; otherwise a fresh never-crawled row is appended.
pub open spec fn spec_submit_url(m: StoreModel, url: Seq<char>, now: u64) -> (StoreModel, Result<
    SubmitOutcome,
    StoreError,
>) {
    if !url_absolute_with_host(url) {
        (m, Err(StoreError::InvalidUrl))
    } else if has_entry(m.entries, url) {
        (m, Ok(SubmitOutcome::AlreadyExists))
    } else if m.next_id == u64::MAX {
        (m, Err(StoreError::Storage))
    } else {
        (
            StoreModel {
                entries: m.entries.push(new_entry(m.next_id, url, now)),
                snaps: m.snaps,
                next_id: (m.next_id + 1) as u64,
            },
            Ok(SubmitOutcome::Inserted),
        )
    }
}

/// Stamping a crawl: advisory bookkeeping only; unknown URLs are a no-op,
/// repeated stamps overwrite.
pub open spec fn spec_mark_crawled(m: StoreModel, url: Seq<char>, now: u64) -> StoreModel {
    if has_entry(m.entries, url) {
        let i = entry_index(m.entries, url);
        StoreModel { entries: m.entries.update(i, crawl_stamp(m.entries[i], now)), ..m }
    } else {
        m
    }
}

/// Recording a snapshot: rejected unless the URL is absolute with a host;
/// a no-op (`Duplicate`) when the content equals the most recent snapshot
/// for that URL; otherwise one snapshot row is appended and the URL row, if
/// tracked, is pointed at it — both in one step, so a failure never leaves
/// a dangling reference.
pub open spec fn spec_record_snapshot(
    m: StoreModel,
    url: Seq<char>,
    content: Seq<char>,
    now: u64,
) -> (StoreModel, Result<WriteOutcome, StoreError>) {
    if !url_absolute_with_host(url) {
        (m, Err(StoreError::InvalidUrl))
    } else if is_dup(m.snaps, url, content) {
        (m, Ok(WriteOutcome::Duplicate))
    } else if m.next_id == u64::MAX {
        (m, Err(StoreError::Storage))
    } else {
        let snaps = m.snaps.push(new_snap(m.next_id, url, content, now));
        let entries = if has_entry(m.entries, url) {
            let i = entry_index(m.entries, url);
            m.entries.update(i, link_snapshot(m.entries[i], m.next_id, now))
        } else {
            m.entries
        };
        (
            StoreModel { entries, snaps, next_id: (m.next_id + 1) as u64 },
            Ok(WriteOutcome::Inserted),
        )
    }
}

/// Removing a tracked URL; its snapshot history stays (append-only).
pub open spec fn spec_delete_url(m: StoreModel, url: Seq<char>) -> StoreModel {
    if has_entry(m.entries, url) {
        StoreModel { entries: m.entries.remove(entry_index(m.entries, url)), ..m }
    } else {
        m
    }
}

// ---------------------------------------------------------------------------
// The crawl selector's choice
// ---------------------------------------------------------------------------

pub open spec fn has_pending(es: Seq<EntryModel>) -> bool {
    exists|i: int| 0 <= i < es.len() && pending(#[trigger] es[i])
}

/// `s` is the row the crawl selector picks: among the never-crawled rows if
/// any exist, otherwise among all rows, the one with the oldest update
/// stamp, ties broken by insertion order (the earliest index).
pub open spec fn is_selected(es: Seq<EntryModel>, s: int) -> bool {
    &&& 0 <= s < es.len()
    &&& if has_pending(es) {
        &&& pending(es[s])
        &&& forall|j: int|
            0 <= j < es.len() && pending(#[trigger] es[j]) ==> es[s].updated_at <= es[j].updated_at
        &&& forall|j: int|
            0 <= j < s && pending(#[trigger] es[j]) ==> es[s].updated_at < es[j].updated_at
    } else {
        &&& forall|j: int| 0 <= j < es.len() ==> es[s].updated_at <= (#[trigger] es[j]).updated_at
        &&& forall|j: int| 0 <= j < s ==> es[s].updated_at < (#[trigger] es[j]).updated_at
    }
}

/// Under unique URLs an index that matches is the index `entry_index` picks.
pub proof fn lemma_entry_index_is(es: Seq<EntryModel>, url: Seq<char>, i: int)
    requires
        urls_unique(es),
        0 <= i < es.len(),
        es[i].url == url,
    ensures
        has_entry(es, url),
        entry_index(es, url) == i,
{
    assert(has_entry(es, url));
    let k = entry_index(es, url);
    if k != i {
        if k < i {
            assert(es[k].url != es[i].url);
        } else {
            assert(es[i].url != es[k].url);
        }
    }
}

/// Submitting a URL preserves the store's invariants.
pub proof fn lemma_submit_preserves_wf(m: StoreModel, url: Seq<char>, now: u64)
    requires
        store_wf(m),
    ensures
        store_wf(spec_submit_url(m, url, now).0),
{
    if url_absolute_with_host(url) && !has_entry(m.entries, url) && m.next_id != u64::MAX {
        let m1 = spec_submit_url(m, url, now).0;
        let es = m1.entries;
        let n = m.entries.len() as int;
        assert forall|i: int, j: int| 0 <= i < j < es.len() implies (#[trigger] es[i]).url != (
        #[trigger] es[j]).url by {
            if j == n {
                assert(es[j].url == url);
                assert(es[i] == m.entries[i]);
            }
        }
        assert forall|i: int, j: int| 0 <= i < j < es.len() implies (#[trigger] es[i]).id != (
        #[trigger] es[j]).id by {
            if j == n {
                assert(m.entries[i].id < m.next_id);
            }
        }
        assert forall|i: int| 0 <= i < es.len() implies ref_ok(m1.snaps, #[trigger] es[i]) by {
            if i < n {
                assert(ref_ok(m.snaps, m.entries[i]));
            }
        }
    }
}

/// Stamping a crawl preserves the store's invariants.
pub proof fn lemma_mark_preserves_wf(m: StoreModel, url: Seq<char>, now: u64)
    requires
        store_wf(m),
    ensures
        store_wf(spec_mark_crawled(m, url, now)),
{
    if has_entry(m.entries, url) {
        let m1 = spec_mark_crawled(m, url, now);
        let es = m1.entries;
        let x = entry_index(m.entries, url);
        assert forall|i: int| 0 <= i < es.len() implies (#[trigger] es[i]).url == m.entries[i].url
            && es[i].id == m.entries[i].id && es[i].snapshot_id == m.entries[i].snapshot_id by {}
        assert forall|i: int| 0 <= i < es.len() implies ref_ok(m1.snaps, #[trigger] es[i]) by {
            assert(ref_ok(m.snaps, m.entries[i]));
        }
    }
}

/// Recording a snapshot preserves the store's invariants.
pub proof fn lemma_record_preserves_wf(m: StoreModel, url: Seq<char>, content: Seq<char>, now: u64)
    requires
        store_wf(m),
    ensures
        store_wf(spec_record_snapshot(m, url, content, now).0),
{
    if url_absolute_with_host(url) && !is_dup(m.snaps, url, content) && m.next_id != u64::MAX {
        let m1 = spec_record_snapshot(m, url, content, now).0;
        let es = m1.entries;
        let ss = m1.snaps;
        let n = m.snaps.len() as int;

        assert forall|i: int| 0 <= i < es.len() implies (#[trigger] es[i]).url == m.entries[i].url
            && es[i].id == m.entries[i].id by {}

        assert forall|i: int, j: int| 0 <= i < j < ss.len() implies (#[trigger] ss[i]).id < (
        #[trigger] ss[j]).id by {
            if j == n {
                assert(m.snaps[i].id < m.next_id);
            }
        }

        assert forall|i: int| 0 <= i < es.len() implies ref_ok(ss, #[trigger] es[i]) by {
            let e = es[i];
            match e.snapshot_id {
                Some(sid) => {
                    if has_entry(m.entries, url) && i == entry_index(m.entries, url) {
                        assert(m.entries[i].url == url);
                        assert(ss[n].id == sid && ss[n].url == e.url);
                    } else {
                        assert(e == m.entries[i]);
                        assert(ref_ok(m.snaps, m.entries[i]));
                        let k = choose|k: int|
                            0 <= k < m.snaps.len() && (#[trigger] m.snaps[k]).id == sid
                                && m.snaps[k].url == e.url;
                        assert(ss[k].id == sid && ss[k].url == e.url);
                    }
                },
                None => {},
            }
        }

        assert forall|k: int| 0 <= k < ss.len() implies #[trigger] no_dup_at(ss, k) by {
            if k < n {
                assert(ss.take(k) =~= m.snaps.take(k));
                assert(ss[k] == m.snaps[k]);
                assert(no_dup_at(m.snaps, k));
                assert forall|j: int|
                    #[trigger] is_last_snap(ss.take(k), ss[k].url, j) implies ss[j].content
                    != ss[k].content by {
                    assert(is_last_snap(m.snaps.take(k), m.snaps[k].url, j));
                    assert(ss[j] == m.snaps[j]);
                }
            } else {
                assert(ss.take(k) =~= m.snaps);
                assert(ss[k].url == url && ss[k].content == content);
                assert forall|j: int|
                    #[trigger] is_last_snap(ss.take(k), ss[k].url, j) implies ss[j].content
                    != ss[k].content by {
                    assert(is_last_snap(m.snaps, url, j));
                    assert(!(is_last_snap(m.snaps, url, j) && m.snaps[j].content == content));
                    assert(ss[j] == m.snaps[j]);
                }
            }
        }
    }
}

/// Removing a URL row preserves the store's invariants.
pub proof fn lemma_delete_preserves_wf(m: StoreModel, url: Seq<char>)
    requires
        store_wf(m),
    ensures
        store_wf(spec_delete_url(m, url)),
{
    if has_entry(m.entries, url) {
        let m1 = spec_delete_url(m, url);
        let es = m1.entries;
        let x = entry_index(m.entries, url);
        m.entries.remove_ensures(x);
        assert forall|i: int| 0 <= i < es.len() implies exists|i0: int|
            0 <= i0 < m.entries.len() && #[trigger] es[i] == m.entries[i0] && i <= i0 <= i + 1 by {
            if i < x {
                assert(es[i] == m.entries[i]);
            } else {
                assert(es[i] == m.entries[i + 1]);
            }
        }
        assert forall|i: int, j: int| 0 <= i < j < es.len() implies (#[trigger] es[i]).url != (
        #[trigger] es[j]).url && es[i].id != es[j].id by {
            let i0: int = if i < x { i } else { i + 1 };
            let j0: int = if j < x { j } else { j + 1 };
            assert(es[i] == m.entries[i0]);
            assert(es[j] == m.entries[j0]);
        }
        assert forall|i: int| 0 <= i < es.len() implies (#[trigger] es[i]).id < m1.next_id by {
            let i0: int = if i < x { i } else { i + 1 };
            assert(es[i] == m.entries[i0]);
        }
        assert forall|i: int| 0 <= i < es.len() implies ref_ok(m1.snaps, #[trigger] es[i]) by {
            let i0: int = if i < x { i } else { i + 1 };
            assert(es[i] == m.entries[i0]);
            assert(ref_ok(m.snaps, m.entries[i0]));
        }
    }
}

/// The most recent snapshot position for a URL is unique.
pub proof fn lemma_last_snap_unique(ss: Seq<SnapModel>, url: Seq<char>, k1: int, k2: int)
    requires
        is_last_snap(ss, url, k1),
        is_last_snap(ss, url, k2),
    ensures
        k1 == k2,
{
    if k1 < k2 {
        assert(ss[k2].url != url);
    }
    if k2 < k1 {
        assert(ss[k1].url != url);
    }
}

} // verus!
