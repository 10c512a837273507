//! The executable content store and its verified operations.
//!
//! `ContentStore` holds the URL rows and the snapshot rows in insertion
//! order.  Each operation's contract says that its effect on the store's
//! model equals the matching transition in [`crate::model`], and that the
//! store's invariants are preserved.

use vstd::prelude::*;
use crate::model::{
    EntryModel, SnapModel, StoreModel, StoreError, SubmitOutcome, WriteOutcome, store_wf,
    has_entry, has_snap, is_last_snap, is_dup, is_selected, has_pending, pending,
    spec_submit_url, spec_mark_crawled, spec_record_snapshot, spec_delete_url,
    lemma_entry_index_is, lemma_last_snap_unique, lemma_submit_preserves_wf,
    lemma_mark_preserves_wf, lemma_record_preserves_wf, lemma_delete_preserves_wf,
};
use crate::validate_url;

verus! {

/// A tracked URL and its crawl bookkeeping.
pub struct UrlEntry {
    pub id: u64,
    pub url: String,
    pub crawled_at: Option<u64>,
    pub snapshot_id: Option<u64>,
    pub created_at: u64,
    pub updated_at: u64,
}

impl View for UrlEntry {
    type V = EntryModel;

    open spec fn view(&self) -> EntryModel {
        EntryModel {
            id: self.id,
            url: self.url@,
            crawled_at: self.crawled_at,
            snapshot_id: self.snapshot_id,
            created_at: self.created_at,
            updated_at: self.updated_at,
        }
    }
}

/// One immutable captured content payload for a URL at a point in time.
pub struct Snapshot {
    pub id: u64,
    pub url: String,
    pub content: String,
    pub created_at: u64,
}

impl View for Snapshot {
    type V = SnapModel;

    open spec fn view(&self) -> SnapModel {
        SnapModel {
            id: self.id,
            url: self.url@,
            content: self.content@,
            created_at: self.created_at,
        }
    }
}

/// The content store: URL rows, append-only snapshot rows, and the next
/// free row id.
pub struct ContentStore {
    pub urls: Vec<UrlEntry>,
    pub snapshots: Vec<Snapshot>,
    pub next_id: u64,
}

impl View for ContentStore {
    type V = StoreModel;

    open spec fn view(&self) -> StoreModel {
        StoreModel {
            entries: self.urls@.map_values(|e: UrlEntry| e@),
            snaps: self.snapshots@.map_values(|s: Snapshot| s@),
            next_id: self.next_id,
        }
    }
}

impl ContentStore {
    pub open spec fn wf(&self) -> bool {
        store_wf(self@)
    }

    /// An empty store.
    pub fn new() -> (r: ContentStore)
        ensures
            r.wf(),
            r@.entries.len() == 0,
            r@.snaps.len() == 0,
            r@.next_id == 0,
    {
        ContentStore { urls: Vec::new(), snapshots: Vec::new(), next_id: 0 }
    }

    /// The index of the row tracking `url`, if any.
    fn find_url_index(&self, url: &String) -> (r: Option<usize>)
        ensures
            r is Some <==> has_entry(self@.entries, url@),
            r matches Some(i) ==> i < self@.entries.len() && self@.entries[i as int].url == url@,
    {
        let n = self.urls.len();
        let mut i: usize = 0;
        while i < n
            invariant
                i <= n,
                n == self.urls.len(),
                forall|j: int| 0 <= j < i ==> (#[trigger] self@.entries[j]).url != url@,
            decreases n - i,
        {
            if self.urls[i].url == *url {
                return Some(i);
            }
            i += 1;
        }
        None
    }

    /// The position of the most recent snapshot for `url`, if any.
    fn find_last_snapshot(&self, url: &String) -> (r: Option<usize>)
        ensures
            r is Some <==> has_snap(self@.snaps, url@),
            r matches Some(k) ==> is_last_snap(self@.snaps, url@, k as int),
    {
        let n = self.snapshots.len();
        let mut found: Option<usize> = None;
        let mut i: usize = 0;
        while i < n
            invariant
                i <= n,
                n == self.snapshots.len(),
                found is None ==> forall|j: int|
                    0 <= j < i ==> (#[trigger] self@.snaps[j]).url != url@,
                found matches Some(k) ==> k < i && self@.snaps[k as int].url == url@
                    && forall|j: int| k < j < i ==> (#[trigger] self@.snaps[j]).url != url@,
            decreases n - i,
        {
            if self.snapshots[i].url == *url {
                found = Some(i);
            }
            i += 1;
        }
        found
    }

    /// Pick the next URL to crawl.  Primary policy: the least recently
    /// updated row that has never received a snapshot reference, ties
    /// broken by insertion order.  Fallback: once every row has a
    /// snapshot reference, the least recently updated row overall, so
    /// stale content is eventually refreshed.  `None` only when the store
    /// tracks no URLs.  Read-only.
    pub fn next_url(&self) -> (r: Option<String>)
        ensures
            r is None <==> self@.entries.len() == 0,
            r matches Some(u) ==> exists|s: int|
                #[trigger] is_selected(self@.entries, s) && u@ == self@.entries[s].url,
    {
        let n = self.urls.len();
        let mut best_p: Option<usize> = None;
        let mut best_a: Option<usize> = None;
        let mut i: usize = 0;
        while i < n
            invariant
                i <= n,
                n == self.urls.len(),
                best_a is None <==> i == 0,
                best_a matches Some(b) ==> b < i && (forall|j: int|
                    0 <= j < i ==> self@.entries[b as int].updated_at <= (
                    #[trigger] self@.entries[j]).updated_at) && (forall|j: int|
                    0 <= j < b ==> self@.entries[b as int].updated_at < (
                    #[trigger] self@.entries[j]).updated_at),
                best_p is None ==> forall|j: int|
                    0 <= j < i ==> !pending(#[trigger] self@.entries[j]),
                best_p matches Some(b) ==> b < i && pending(self@.entries[b as int]) && (
                forall|j: int|
                    0 <= j < i && pending(#[trigger] self@.entries[j])
                        ==> self@.entries[b as int].updated_at <= self@.entries[j].updated_at) && (
                forall|j: int|
                    0 <= j < b && pending(#[trigger] self@.entries[j])
                        ==> self@.entries[b as int].updated_at < self@.entries[j].updated_at),
            decreases n - i,
        {
            let e_upd = self.urls[i].updated_at;
            match best_a {
                Some(b) => {
                    if e_upd < self.urls[b].updated_at {
                        best_a = Some(i);
                    }
                },
                None => {
                    best_a = Some(i);
                },
            }
            if self.urls[i].snapshot_id.is_none() {
                match best_p {
                    Some(b) => {
                        if e_upd < self.urls[b].updated_at {
                            best_p = Some(i);
                        }
                    },
                    None => {
                        best_p = Some(i);
                    },
                }
            }
            i += 1;
        }
        match best_p {
            Some(b) => {
                proof {
                    assert(pending(self@.entries[b as int]));
                    assert(is_selected(self@.entries, b as int));
                }
                Some(self.urls[b].url.clone())
            },
            None => {
                match best_a {
                    Some(b) => {
                        proof {
                            assert(!has_pending(self@.entries));
                            assert(is_selected(self@.entries, b as int));
                        }
                        Some(self.urls[b].url.clone())
                    },
                    None => None,
                }
            },
        }
    }

    /// Submit a URL for tracking.  Idempotent: a URL that is already
    /// tracked is reported as `AlreadyExists` and nothing changes.
    pub fn submit_url(&mut self, url: &str, now: u64) -> (r: Result<SubmitOutcome, StoreError>)
        requires
            old(self).wf(),
        ensures
            final(self).wf(),
            final(self)@ == spec_submit_url(old(self)@, url@, now).0,
            r == spec_submit_url(old(self)@, url@, now).1,
    {
        match validate_url(url) {
            Ok(true) => {},
            _ => {
                return Err(StoreError::InvalidUrl);
            },
        }
        let url_s: String = url.to_owned();
        if self.find_url_index(&url_s).is_some() {
            return Ok(SubmitOutcome::AlreadyExists);
        }
        if self.next_id == u64::MAX {
            return Err(StoreError::Storage);
        }
        let id = self.next_id;
        let entry = UrlEntry {
            id,
            url: url_s,
            crawled_at: None,
            snapshot_id: None,
            created_at: now,
            updated_at: now,
        };
        self.urls.push(entry);
        self.next_id = id + 1;
        proof {
            lemma_submit_preserves_wf(old(self)@, url@, now);
            assert(self@ =~~= spec_submit_url(old(self)@, url@, now).0);
        }
        Ok(SubmitOutcome::Inserted)
    }

    /// Stamp the URL's row with the given crawl time.  Advisory only: it
    /// does not gate snapshot writing, unknown URLs are a no-op, and
    /// repeated stamps overwrite.
    pub fn mark_crawled(&mut self, url: &str, now: u64) -> (r: Result<(), StoreError>)
        requires
            old(self).wf(),
        ensures
            final(self).wf(),
            final(self)@ == spec_mark_crawled(old(self)@, url@, now),
            r is Ok,
    {
        let url_s: String = url.to_owned();
        match self.find_url_index(&url_s) {
            Some(i) => {
                proof {
                    lemma_entry_index_is(self@.entries, url@, i as int);
                }
                let e = &mut self.urls[i];
                e.crawled_at = Some(now);
                e.updated_at = now;
                proof {
                    lemma_mark_preserves_wf(old(self)@, url@, now);
                    assert(self@ =~~= spec_mark_crawled(old(self)@, url@, now));
                }
                Ok(())
            },
            None => Ok(()),
        }
    }

    /// Record a snapshot of `content` for `url`.  Invalid URLs are
    /// rejected with no write; content identical to the most recent
    /// snapshot for that URL is reported as `Duplicate` with no write;
    /// otherwise one snapshot row is appended and the URL's row, if
    /// tracked, is linked to it in the same step.
    pub fn record_snapshot(&mut self, url: &str, content: &str, now: u64) -> (r: Result<
        WriteOutcome,
        StoreError,
    >)
        requires
            old(self).wf(),
        ensures
            final(self).wf(),
            final(self)@ == spec_record_snapshot(old(self)@, url@, content@, now).0,
            r == spec_record_snapshot(old(self)@, url@, content@, now).1,
    {
        match validate_url(url) {
            Ok(true) => {},
            _ => {
                return Err(StoreError::InvalidUrl);
            },
        }
        let url_s: String = url.to_owned();
        let content_s: String = content.to_owned();
        let last = self.find_last_snapshot(&url_s);
        match last {
            Some(k) => {
                if self.snapshots[k].content == content_s {
                    proof {
                        assert(is_last_snap(self@.snaps, url@, k as int)
                            && self@.snaps[k as int].content == content@);
                    }
                    return Ok(WriteOutcome::Duplicate);
                }
                proof {
                    if is_dup(self@.snaps, url@, content@) {
                        let k2 = choose|k2: int|
                            #[trigger] is_last_snap(self@.snaps, url@, k2)
                                && self@.snaps[k2].content == content@;
                        lemma_last_snap_unique(self@.snaps, url@, k as int, k2);
                    }
                }
            },
            None => {
                proof {
                    if is_dup(self@.snaps, url@, content@) {
                        let k2 = choose|k2: int|
                            #[trigger] is_last_snap(self@.snaps, url@, k2)
                                && self@.snaps[k2].content == content@;
                        assert(self@.snaps[k2].url == url@);
                    }
                }
            },
        }
        if self.next_id == u64::MAX {
            return Err(StoreError::Storage);
        }
        let sid = self.next_id;
        let link = self.find_url_index(&url_s);
        let snap = Snapshot { id: sid, url: url_s, content: content_s, created_at: now };
        self.snapshots.push(snap);
        match link {
            Some(i) => {
                proof {
                    lemma_entry_index_is(self@.entries, url@, i as int);
                }
                let e = &mut self.urls[i];
                e.snapshot_id = Some(sid);
                e.updated_at = now;
            },
            None => {},
        }
        self.next_id = sid + 1;
        proof {
            lemma_record_preserves_wf(old(self)@, url@, content@, now);
            assert(self@ =~~= spec_record_snapshot(old(self)@, url@, content@, now).0);
        }
        Ok(WriteOutcome::Inserted)
    }

    /// Remove the row tracking `url`, if any.  The URL's snapshot history
    /// stays: it is append-only.
    pub fn delete_url(&mut self, url: &str)
        requires
            old(self).wf(),
        ensures
            final(self).wf(),
            final(self)@ == spec_delete_url(old(self)@, url@),
    {
        let url_s: String = url.to_owned();
        match self.find_url_index(&url_s) {
            Some(i) => {
                proof {
                    lemma_entry_index_is(self@.entries, url@, i as int);
                    old(self).urls@.remove_ensures(i as int);
                    old(self)@.entries.remove_ensures(i as int);
                }
                let _ = self.urls.remove(i);
                proof {
                    lemma_delete_preserves_wf(old(self)@, url@);
                    assert(self@ =~~= spec_delete_url(old(self)@, url@));
                }
            },
            None => {},
        }
    }
}

} // verus!
