//! The laws the store obeys, proved over the model once and for all.
//!
//! Each law quantifies over every store state and input; the matching
//! executable operations promise in their contracts that their effect
//! equals the transitions these laws speak of.

use vstd::prelude::*;
use crate::model::{
    EntryModel, SnapModel, StoreModel, StoreError, SubmitOutcome, WriteOutcome, store_wf,
    has_entry, entry_index, is_last_snap, is_dup, is_selected, has_pending, pending,
    spec_submit_url, spec_mark_crawled, spec_record_snapshot, lemma_entry_index_is,
    lemma_last_snap_unique, lemma_record_preserves_wf,
};

verus! {

/// Submitting the same URL twice never creates two rows: when the first
/// submission inserts, an immediate second submission of the same URL
/// reports `AlreadyExists` and changes nothing.
pub proof fn lemma_submit_idempotent(m: StoreModel, url: Seq<char>, n1: u64, n2: u64)
    requires
        store_wf(m),
    ensures
        ({
            let (m1, r1) = spec_submit_url(m, url, n1);
            let (m2, r2) = spec_submit_url(m1, url, n2);
            r1 == Ok::<SubmitOutcome, StoreError>(SubmitOutcome::Inserted) ==> {
                &&& r2 == Ok::<SubmitOutcome, StoreError>(SubmitOutcome::AlreadyExists)
                &&& m2 == m1
                &&& m1.entries.len() == m.entries.len() + 1
            }
        }),
{
    let (m1, r1) = spec_submit_url(m, url, n1);
    if r1 == Ok::<SubmitOutcome, StoreError>(SubmitOutcome::Inserted) {
        assert(m1.entries[m.entries.len() as int].url == url);
        assert(has_entry(m1.entries, url));
    }
}

/// Re-submitting identical content is a no-op: when a snapshot write
/// succeeds, an immediate second write of the same content for the same
/// URL reports `Duplicate` and changes nothing — so the pair of calls
/// creates at most one snapshot row.
pub proof fn lemma_record_dedup(m: StoreModel, url: Seq<char>, c: Seq<char>, n1: u64, n2: u64)
    requires
        store_wf(m),
    ensures
        ({
            let (m1, r1) = spec_record_snapshot(m, url, c, n1);
            let (m2, r2) = spec_record_snapshot(m1, url, c, n2);
            r1 is Ok ==> {
                &&& r2 == Ok::<WriteOutcome, StoreError>(WriteOutcome::Duplicate)
                &&& m2 == m1
                &&& m1.snaps.len() <= m.snaps.len() + 1
            }
        }),
{
    let (m1, r1) = spec_record_snapshot(m, url, c, n1);
    if r1 == Ok::<WriteOutcome, StoreError>(WriteOutcome::Inserted) {
        let n = m.snaps.len() as int;
        assert(is_last_snap(m1.snaps, url, n) && m1.snaps[n].content == c);
        assert(is_dup(m1.snaps, url, c));
    }
}

/// Changed content extends history: after an inserting write of `c1`, a
/// write of different content `c2` for the same URL inserts again — two
/// new snapshot rows in all — and the tracked row, if any, is pointed at
/// the second of them.
pub proof fn lemma_record_change(
    m: StoreModel,
    url: Seq<char>,
    c1: Seq<char>,
    c2: Seq<char>,
    n1: u64,
    n2: u64,
)
    requires
        store_wf(m),
        c1 != c2,
    ensures
        ({
            let (m1, r1) = spec_record_snapshot(m, url, c1, n1);
            let (m2, r2) = spec_record_snapshot(m1, url, c2, n2);
            (r1 == Ok::<WriteOutcome, StoreError>(WriteOutcome::Inserted) && m1.next_id
                != u64::MAX) ==> {
                &&& r2 == Ok::<WriteOutcome, StoreError>(WriteOutcome::Inserted)
                &&& m2.snaps.len() == m.snaps.len() + 2
                &&& m2.snaps.last().url == url
                &&& m2.snaps.last().content == c2
                &&& m2.snaps.last().id == m1.next_id
                &&& has_entry(m.entries, url) ==> m2.entries[entry_index(m.entries, url)]
                    .snapshot_id == Some(m1.next_id)
            }
        }),
{
    let (m1, r1) = spec_record_snapshot(m, url, c1, n1);
    if r1 == Ok::<WriteOutcome, StoreError>(WriteOutcome::Inserted) && m1.next_id != u64::MAX {
        lemma_record_preserves_wf(m, url, c1, n1);
        let n = m.snaps.len() as int;
        assert(is_last_snap(m1.snaps, url, n));
        if is_dup(m1.snaps, url, c2) {
            let k = choose|k: int|
                #[trigger] is_last_snap(m1.snaps, url, k) && m1.snaps[k].content == c2;
            lemma_last_snap_unique(m1.snaps, url, k, n);
        }
        assert(!is_dup(m1.snaps, url, c2));
        if has_entry(m.entries, url) {
            let i = entry_index(m.entries, url);
            assert(m.entries[i].url == url);
            assert(m1.entries[i].url == url);
            lemma_entry_index_is(m1.entries, url, i);
        }
    }
}

/// Crawl stamping is overwrite-idempotent: stamping twice leaves exactly
/// the state of the later stamp.
pub proof fn lemma_mark_overwrites(m: StoreModel, url: Seq<char>, n1: u64, n2: u64)
    requires
        store_wf(m),
    ensures
        spec_mark_crawled(spec_mark_crawled(m, url, n1), url, n2) == spec_mark_crawled(
            m,
            url,
            n2,
        ),
{
    if has_entry(m.entries, url) {
        let i = entry_index(m.entries, url);
        assert(m.entries[i].url == url);
        let m1 = spec_mark_crawled(m, url, n1);
        assert(m1.entries[i].url == url);
        lemma_entry_index_is(m1.entries, url, i);
        assert(spec_mark_crawled(m1, url, n2).entries =~~= spec_mark_crawled(
            m,
            url,
            n2,
        ).entries);
        assert(spec_mark_crawled(m1, url, n2) =~~= spec_mark_crawled(m, url, n2));
    }
}

/// Selector fairness: among rows that have never been crawled, the
/// selector never passes over an older-updated row for a newer one; in
/// particular it does not pick `b` when a strictly older pending row `a`
/// exists.
pub proof fn lemma_selector_fairness(es: Seq<EntryModel>, s: int, a: int, b: int)
    requires
        is_selected(es, s),
        0 <= a < es.len(),
        0 <= b < es.len(),
        pending(es[a]),
        pending(es[b]),
        es[a].updated_at < es[b].updated_at,
    ensures
        s != b,
        es[s].updated_at <= es[a].updated_at,
{
    assert(has_pending(es));
}

/// Selector fallback: once every row carries a snapshot reference, the
/// selector picks the row with the oldest update stamp overall — combined
/// with `next_url`'s contract, a non-empty store never yields `None`.
pub proof fn lemma_selector_fallback(es: Seq<EntryModel>, s: int)
    requires
        is_selected(es, s),
        forall|i: int| 0 <= i < es.len() ==> !pending(#[trigger] es[i]),
    ensures
        forall|j: int| 0 <= j < es.len() ==> es[s].updated_at <= (#[trigger] es[j]).updated_at,
{
    assert(!has_pending(es));
}

/// The selector's choice is deterministic: at most one index satisfies
/// `is_selected`.
pub proof fn lemma_selected_unique(es: Seq<EntryModel>, s1: int, s2: int)
    requires
        is_selected(es, s1),
        is_selected(es, s2),
    ensures
        s1 == s2,
{
    if s1 < s2 {
        if has_pending(es) {
            assert(pending(es[s1]));
            assert(es[s2].updated_at < es[s1].updated_at);
            assert(es[s1].updated_at <= es[s2].updated_at);
        } else {
            assert(es[s2].updated_at < es[s1].updated_at);
            assert(es[s1].updated_at <= es[s2].updated_at);
        }
    }
    if s2 < s1 {
        if has_pending(es) {
            assert(pending(es[s2]));
            assert(es[s1].updated_at < es[s2].updated_at);
            assert(es[s2].updated_at <= es[s1].updated_at);
        } else {
            assert(es[s1].updated_at < es[s2].updated_at);
            assert(es[s2].updated_at <= es[s1].updated_at);
        }
    }
}

/// `created_at` strictly orders each URL's snapshot history.
pub open spec fn history_ordered(ss: Seq<SnapModel>) -> bool {
    forall|i: int, j: int|
        0 <= i < j < ss.len() && (#[trigger] ss[i]).url == (#[trigger] ss[j]).url
            ==> ss[i].created_at < ss[j].created_at
}

/// As long as each write's clock reading is newer than every stored
/// snapshot's, recording keeps each URL's history strictly ordered by
/// `created_at`.
pub proof fn lemma_history_stays_ordered(
    m: StoreModel,
    url: Seq<char>,
    content: Seq<char>,
    now: u64,
)
    requires
        history_ordered(m.snaps),
        forall|k: int| 0 <= k < m.snaps.len() ==> (#[trigger] m.snaps[k]).created_at < now,
    ensures
        history_ordered(spec_record_snapshot(m, url, content, now).0.snaps),
{
    let ss = spec_record_snapshot(m, url, content, now).0.snaps;
    let n = m.snaps.len() as int;
    assert forall|i: int, j: int|
        0 <= i < j < ss.len() && (#[trigger] ss[i]).url == (#[trigger] ss[j]).url implies ss[i]
        .created_at < ss[j].created_at by {
        if j < n {
            assert(ss[i] == m.snaps[i] && ss[j] == m.snaps[j]);
        } else if j == n {
            assert(ss[i] == m.snaps[i]);
        }
    }
}

} // verus!
