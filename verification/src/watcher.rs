//! The deployment watcher's bookkeeping on an edge agent.
//!
//! The agent polls its database replica for `cloud_deployments` rows of its
//! region and loads the Wasm blob of each new active one. This module keeps
//! the set of deployments already loaded, decides which rows are new, and
//! finds the loaded deployments that are no longer active. Querying the
//! database and loading blobs is left to the caller, one row at a time.

use vstd::prelude::*;
use crate::strmap::StrMap;
use crate::text::{str_eq, str_views, to_owned_str, vec_contains_str};

verus! {

/// A row of `cloud_deployments`.
#[derive(Debug)]
pub struct DeploymentRow {
    pub deployment_id: String,
    pub namespace: String,
    pub name: String,
    pub wasm_hash: String,
    pub region: String,
    pub status: String,
}

/// A newly detected deployment ready for runtime instantiation.
#[derive(Debug)]
pub struct NewDeployment {
    pub deployment_id: String,
    pub namespace: String,
    pub name: String,
    pub wasm_hash: String,
    pub wasm_bytes: Vec<u8>,
    pub region: String,
}

/// A deployment that was removed (status changed or row deleted).
#[derive(Debug)]
pub struct RemovedDeployment {
    pub deployment_id: String,
}

/// The ids of removed deployments.
pub open spec fn removed_ids(s: Seq<RemovedDeployment>) -> Seq<Seq<char>> {
    s.map_values(|r: RemovedDeployment| r.deployment_id@)
}

/// A row found by change capture is new when it is an active deployment of
/// the watcher's region that is not loaded yet.
pub open spec fn wanted_by_cdc(loaded: Set<Seq<char>>, region: Seq<char>, row_id: Seq<char>, row_region: Seq<char>, row_status: Seq<char>) -> bool {
    row_region == region && row_status == "active"@ && !loaded.contains(row_id)
}

/// A row of the direct query (which already selects the active rows of the
/// region) is new when it is not loaded yet.
pub open spec fn wanted_by_poll(loaded: Set<Seq<char>>, row_id: Seq<char>) -> bool {
    !loaded.contains(row_id)
}

/// Whether a row is new to a watcher of `region` that has loaded `loaded`:
/// by change capture (`by_cdc`) or by the direct query.
pub open spec fn wanted(loaded: Set<Seq<char>>, region: Seq<char>, by_cdc: bool, r: DeploymentRow) -> bool {
    if by_cdc {
        wanted_by_cdc(loaded, region, r.deployment_id@, r.region@, r.status@)
    } else {
        wanted_by_poll(loaded, r.deployment_id@)
    }
}

/// The ids of polled rows.
pub open spec fn row_ids(p: Seq<(DeploymentRow, Vec<u8>)>) -> Seq<Seq<char>> {
    p.map_values(|x: (DeploymentRow, Vec<u8>)| x.0.deployment_id@)
}

/// The rows a poll over `rows` (each with its Wasm blob, `None` where the
/// blob could not be read) accepts, in order, with their blobs: each row
/// that is new given what was loaded before and what the earlier rows of the
/// poll added, and whose blob was read.
pub open spec fn polled(
    loaded: Set<Seq<char>>,
    region: Seq<char>,
    by_cdc: bool,
    rows: Seq<(DeploymentRow, Option<Vec<u8>>)>,
) -> Seq<(DeploymentRow, Vec<u8>)>
    decreases rows.len(),
{
    if rows.len() == 0 {
        Seq::empty()
    } else {
        let prev = polled(loaded, region, by_cdc, rows.drop_last());
        let (r, b) = rows.last();
        if b is Some && wanted(loaded.union(row_ids(prev).to_set()), region, by_cdc, r) {
            prev.push((r, b.unwrap()))
        } else {
            prev
        }
    }
}

/// Whether a new deployment is the given row with the given blob.
pub open spec fn describes(d: NewDeployment, r: DeploymentRow, b: Vec<u8>) -> bool {
    &&& d.deployment_id@ == r.deployment_id@
    &&& d.namespace@ == r.namespace@
    &&& d.name@ == r.name@
    &&& d.wasm_hash@ == r.wasm_hash@
    &&& d.wasm_bytes@ == b@
    &&& d.region@ == r.region@
}

/// The watcher's state: its region, the deployments loaded so far, and the
/// progress of change capture.
pub struct WatcherState {
    region: String,
    loaded_ids: StrMap<()>,
    last_change_id: Option<i64>,
    cdc_available: bool,
}

impl WatcherState {
    #[verifier::type_invariant]
    closed spec fn inv(self) -> bool {
        self.loaded_ids.wf()
    }

    /// The watcher's region.
    pub closed spec fn region_view(&self) -> Seq<char> {
        self.region@
    }

    /// The ids of the deployments loaded so far.
    pub closed spec fn loaded(&self) -> Set<Seq<char>> {
        self.loaded_ids@.dom()
    }

    /// The last change id processed, `None` before change capture started.
    pub closed spec fn change_id(&self) -> Option<i64> {
        self.last_change_id
    }

    /// Whether change capture is in use.
    pub closed spec fn cdc(&self) -> bool {
        self.cdc_available
    }

    /// A watcher for `region` that has loaded nothing and does not use
    /// change capture yet.
    pub fn new(region: &str) -> (res: Self)
        ensures
            res.region_view() == region@,
            res.loaded() == Set::<Seq<char>>::empty(),
            res.change_id() is None,
            !res.cdc(),
    {
        let res = WatcherState {
            region: to_owned_str(region),
            loaded_ids: StrMap::new(),
            last_change_id: None,
            cdc_available: false,
        };
        proof {
            assert(res.loaded() =~= Set::<Seq<char>>::empty());
        }
        res
    }

    /// The watcher's region.
    pub fn region(&self) -> (res: &str)
        ensures
            res@ == self.region_view(),
    {
        self.region.as_str()
    }

    /// Records the outcome of enabling change capture: on success it is used
    /// from change id 0 on; on failure the direct query is used.
    pub fn set_cdc_enabled(&mut self, enabled: bool)
        ensures
            final(self).cdc() == enabled,
            final(self).change_id() == (if enabled {
                Some(0i64)
            } else {
                old(self).change_id()
            }),
            final(self).loaded() == old(self).loaded(),
            final(self).region_view() == old(self).region_view(),
    {
        proof {
            use_type_invariant(&*self);
        }
        self.cdc_available = enabled;
        if enabled {
            self.last_change_id = Some(0);
        }
    }

    /// Whether change capture is in use.
    pub fn cdc_available(&self) -> (res: bool)
        ensures
            res == self.cdc(),
    {
        self.cdc_available
    }

    /// The change id after which to look for changes: the last one
    /// processed, or 0.
    pub fn last_change_id(&self) -> (res: i64)
        ensures
            res == match self.change_id() {
                Some(c) => c,
                None => 0,
            },
    {
        match self.last_change_id {
            Some(c) => c,
            None => 0,
        }
    }

    /// Notes a change id seen in a poll: the last change id becomes the
    /// larger of it and the previous one (0 when there was none).
    pub fn record_change_id(&mut self, change_id: i64)
        ensures
            final(self).change_id() == Some({
                let prev: i64 = match old(self).change_id() {
                    Some(c) => c,
                    None => 0,
                };
                if change_id > prev {
                    change_id
                } else {
                    prev
                }
            }),
            final(self).loaded() == old(self).loaded(),
            final(self).cdc() == old(self).cdc(),
            final(self).region_view() == old(self).region_view(),
    {
        proof {
            use_type_invariant(&*self);
        }
        let prev = self.last_change_id();
        self.last_change_id = Some(if change_id > prev {
            change_id
        } else {
            prev
        });
    }

    /// Change capture failed: the direct query is used from now on.
    pub fn cdc_failed(&mut self)
        ensures
            !final(self).cdc(),
            final(self).change_id() == old(self).change_id(),
            final(self).loaded() == old(self).loaded(),
            final(self).region_view() == old(self).region_view(),
    {
        proof {
            use_type_invariant(&*self);
        }
        self.cdc_available = false;
    }

    /// Whether deployment `id` is loaded.
    pub fn is_loaded(&self, id: &str) -> (res: bool)
        ensures
            res == self.loaded().contains(id@),
    {
        proof {
            use_type_invariant(self);
        }
        self.loaded_ids.contains_key(id)
    }

    /// Whether a row found by change capture is new.
    pub fn wants_cdc_row(&self, row: &DeploymentRow) -> (res: bool)
        ensures
            res == wanted_by_cdc(
                self.loaded(),
                self.region_view(),
                row.deployment_id@,
                row.region@,
                row.status@,
            ),
    {
        str_eq(row.region.as_str(), self.region.as_str()) && str_eq(row.status.as_str(), "active")
            && !self.is_loaded(row.deployment_id.as_str())
    }

    /// Whether a row of the direct query is new.
    pub fn wants_row(&self, row: &DeploymentRow) -> (res: bool)
        ensures
            res == wanted_by_poll(self.loaded(), row.deployment_id@),
    {
        !self.is_loaded(row.deployment_id.as_str())
    }

    /// Marks deployment `id` as loaded.
    pub fn mark_loaded(&mut self, id: &str)
        ensures
            final(self).loaded() == old(self).loaded().insert(id@),
            final(self).change_id() == old(self).change_id(),
            final(self).cdc() == old(self).cdc(),
            final(self).region_view() == old(self).region_view(),
    {
        proof {
            use_type_invariant(&*self);
        }
        let mut ids = StrMap::new();
        std::mem::swap(&mut ids, &mut self.loaded_ids);
        ids.insert(to_owned_str(id), ());
        self.loaded_ids = ids;
        proof {
            assert(self.loaded() =~= old(self).loaded().insert(id@));
        }
    }

    /// The outcome of loading the blob of a new row: with the blob, the
    /// deployment is marked loaded and returned; without it (the blob could
    /// not be read) nothing changes and the row is tried again at the next
    /// poll.
    pub fn accept_row(&mut self, row: DeploymentRow, blob: Option<Vec<u8>>) -> (res: Option<NewDeployment>)
        ensures
            match blob {
                Some(b) => res matches Some(d) && d.deployment_id@ == row.deployment_id@
                    && d.namespace@ == row.namespace@ && d.name@ == row.name@ && d.wasm_hash@
                    == row.wasm_hash@ && d.wasm_bytes@ == b@ && d.region@ == row.region@
                    && final(self).loaded() == old(self).loaded().insert(row.deployment_id@),
                None => res is None && final(self).loaded() == old(self).loaded(),
            },
            final(self).change_id() == old(self).change_id(),
            final(self).cdc() == old(self).cdc(),
            final(self).region_view() == old(self).region_view(),
    {
        match blob {
            Some(wasm_bytes) => {
                self.mark_loaded(row.deployment_id.as_str());
                Some(
                    NewDeployment {
                        deployment_id: row.deployment_id,
                        namespace: row.namespace,
                        name: row.name,
                        wasm_hash: row.wasm_hash,
                        wasm_bytes,
                        region: row.region,
                    },
                )
            },
            None => None,
        }
    }

    /// One poll for new deployments over `rows`, in order, each with its
    /// Wasm blob (`None` where it could not be read): by change capture
    /// when it is in use, else by the direct query. Each row that is new,
    /// given the deployments loaded and those this poll added before it, and
    /// whose blob was read, is marked loaded and returned; the others are
    /// skipped, and a row whose blob could not be read is tried again at the
    /// next poll.
    pub fn poll_once(&mut self, rows: Vec<(DeploymentRow, Option<Vec<u8>>)>) -> (res: Vec<
        NewDeployment,
    >)
        ensures
            ({
                let p = polled(old(self).loaded(), old(self).region_view(), old(self).cdc(), rows@);
                &&& res@.len() == p.len()
                &&& forall|k: int| 0 <= k < p.len() ==> describes(#[trigger] res@[k], p[k].0, p[k].1)
                &&& final(self).loaded() == old(self).loaded().union(row_ids(p).to_set())
                &&& row_ids(p).no_duplicates()
                &&& forall|k: int|
                    0 <= k < p.len() ==> wanted(
                        old(self).loaded(),
                        old(self).region_view(),
                        old(self).cdc(),
                        (#[trigger] p[k]).0,
                    )
            }),
            final(self).change_id() == old(self).change_id(),
            final(self).cdc() == old(self).cdc(),
            final(self).region_view() == old(self).region_view(),
    {
        let ghost orig = rows@;
        let ghost loaded0 = self.loaded();
        let ghost region = self.region_view();
        let by_cdc = self.cdc_available;
        let mut rest = rows;
        let mut out: Vec<NewDeployment> = Vec::new();
        let ghost mut i: int = 0;
        while rest.len() > 0
            invariant
                0 <= i <= orig.len(),
                rest@ == orig.skip(i),
                region == self.region_view(),
                by_cdc == self.cdc(),
                self.change_id() == old(self).change_id(),
                self.cdc() == old(self).cdc(),
                loaded0 == old(self).loaded(),
                region == old(self).region_view(),
                out@.len() == polled(loaded0, region, by_cdc, orig.take(i)).len(),
                forall|k: int|
                    0 <= k < out@.len() ==> describes(
                        #[trigger] out@[k],
                        polled(loaded0, region, by_cdc, orig.take(i))[k].0,
                        polled(loaded0, region, by_cdc, orig.take(i))[k].1,
                    ),
                self.loaded() == loaded0.union(
                    row_ids(polled(loaded0, region, by_cdc, orig.take(i))).to_set(),
                ),
            decreases rest@.len(),
        {
            let ghost prev = polled(loaded0, region, by_cdc, orig.take(i));
            let (row, blob) = rest.remove(0);
            proof {
                assert(orig.take(i + 1).drop_last() =~= orig.take(i));
                assert(orig.take(i + 1).last() == orig[i]);
                assert(orig[i] == (row, blob));
                assert(orig.skip(i + 1) =~= orig.skip(i).remove(0));
            }
            let want = if by_cdc {
                self.wants_cdc_row(&row)
            } else {
                self.wants_row(&row)
            };
            if want && blob.is_some() {
                let ghost r = row;
                let ghost b = blob.unwrap();
                let ghost before = out@;
                match self.accept_row(row, blob) {
                    Some(d) => {
                        out.push(d);
                    },
                    None => {},
                }
                proof {
                    let next = polled(loaded0, region, by_cdc, orig.take(i + 1));
                    assert(next == prev.push((r, b)));
                    assert(row_ids(next) =~= row_ids(prev).push(r.deployment_id@));
                    row_ids(prev).lemma_push_to_set_commute(r.deployment_id@);
                    assert(row_ids(next).to_set() =~= row_ids(prev).to_set().insert(
                        r.deployment_id@,
                    ));
                    assert(self.loaded() =~= loaded0.union(row_ids(next).to_set()));
                    assert forall|k: int| 0 <= k < out@.len() implies describes(
                        #[trigger] out@[k],
                        next[k].0,
                        next[k].1,
                    ) by {
                        if k < before.len() {
                            assert(out@[k] == before[k]);
                        }
                    }
                }
            } else {
                proof {
                    let next = polled(loaded0, region, by_cdc, orig.take(i + 1));
                    assert(next == prev);
                }
            }
            proof {
                i = i + 1;
            }
        }
        proof {
            assert(orig.skip(i).len() == 0);
            assert(orig.take(i) =~= orig);
            law_poll_returns_new_rows_once(loaded0, region, by_cdc, orig);
        }
        out
    }

    /// The ids of the loaded deployments, in the order they were loaded.
    pub fn loaded_deployment_ids(&self) -> (res: Vec<String>)
        ensures
            str_views(res@).to_set() == self.loaded(),
            str_views(res@).no_duplicates(),
    {
        proof {
            use_type_invariant(self);
            self.loaded_ids.lemma_wf();
            self.loaded_ids.lemma_dom();
        }
        let mut out: Vec<String> = Vec::new();
        let mut i: usize = 0;
        while i < self.loaded_ids.len()
            invariant
                self.loaded_ids.wf(),
                i <= self.loaded_ids.key_seq().len(),
                str_views(out@) == self.loaded_ids.key_seq().take(i as int),
            decreases self.loaded_ids.key_seq().len() - i,
        {
            let k = self.loaded_ids.key_at(i);
            let ghost before = out@;
            out.push(to_owned_str(k.as_str()));
            proof {
                assert(str_views(out@) =~= str_views(before).push(k@));
                assert(self.loaded_ids.key_seq().take(i + 1) =~= self.loaded_ids.key_seq().take(
                    i as int,
                ).push(self.loaded_ids.key_seq()[i as int]));
            }
            i = i + 1;
        }
        proof {
            assert(self.loaded_ids.key_seq().take(i as int) =~= self.loaded_ids.key_seq());
        }
        out
    }

    /// Finds the loaded deployments that are not among `active_ids` (the
    /// active deployments of the region now) and forgets them, so that each
    /// is reported once. The removed ones come in the order they were
    /// loaded.
    pub fn detect_removed(&mut self, active_ids: &Vec<String>) -> (res: Vec<RemovedDeployment>)
        ensures
            removed_ids(res@).to_set() == old(
                self,
            ).loaded().difference(str_views(active_ids@).to_set()),
            removed_ids(res@).no_duplicates(),
            final(self).loaded() == old(self).loaded().intersect(str_views(active_ids@).to_set()),
            final(self).change_id() == old(self).change_id(),
            final(self).cdc() == old(self).cdc(),
            final(self).region_view() == old(self).region_view(),
    {
        proof {
            use_type_invariant(&*self);
            self.loaded_ids.lemma_wf();
            self.loaded_ids.lemma_dom();
        }
        let ghost keys = self.loaded_ids.key_seq();
        let ghost act = str_views(active_ids@).to_set();
        let mut kept: StrMap<()> = StrMap::new();
        let mut removed: Vec<RemovedDeployment> = Vec::new();
        let mut i: usize = 0;
        while i < self.loaded_ids.len()
            invariant
                self.loaded_ids.wf(),
                keys == self.loaded_ids.key_seq(),
                keys.no_duplicates(),
                act == str_views(active_ids@).to_set(),
                i <= keys.len(),
                kept.wf(),
                forall|s: Seq<char>| #[trigger]
                    kept@.contains_key(s) <==> keys.take(i as int).contains(s) && act.contains(s),
                forall|s: Seq<char>| #[trigger]
                    removed_ids(removed@).contains(s)
                        <==> keys.take(i as int).contains(s) && !act.contains(s),
                removed_ids(removed@).no_duplicates(),
            decreases keys.len() - i,
        {
            let k = self.loaded_ids.key_at(i);
            let ghost kv = k@;
            proof {
                assert(keys.take(i + 1) =~= keys.take(i as int).push(kv));
                assert(!keys.take(i as int).contains(kv)) by {
                    if keys.take(i as int).contains(kv) {
                        let j = keys.take(i as int).index_of(kv);
                        assert(keys[j] == keys[i as int]);
                    }
                }
                assert(act.contains(kv) == str_views(active_ids@).contains(kv));
            }
            if vec_contains_str(active_ids, k.as_str()) {
                kept.insert(to_owned_str(k.as_str()), ());
                proof {
                    assert forall|s: Seq<char>| #[trigger]
                        removed_ids(removed@).contains(s)
                            <==> keys.take(i + 1).contains(s) && !act.contains(s) by {
                        if s == kv {
                            assert(act.contains(kv));
                        } else {
                            if keys.take(i + 1).contains(s) {
                                let j = keys.take(i + 1).index_of(s);
                                assert(keys.take(i as int)[j] == s);
                            }
                            if keys.take(i as int).contains(s) {
                                let j = keys.take(i as int).index_of(s);
                                assert(keys.take(i + 1)[j] == s);
                            }
                        }
                    }
                }
            } else {
                let ghost before = removed@;
                removed.push(RemovedDeployment { deployment_id: to_owned_str(k.as_str()) });
                proof {
                    assert(removed_ids(removed@) =~= removed_ids(before).push(kv));
                    assert forall|s: Seq<char>| #[trigger]
                        removed_ids(removed@).contains(s)
                            <==> keys.take(i + 1).contains(s) && !act.contains(s) by {
                        if s == kv {
                            assert(removed_ids(removed@)[before.len() as int] == kv);
                            assert(keys.take(i + 1)[i as int] == kv);
                            assert(!act.contains(kv));
                        } else {
                            if keys.take(i as int).contains(s) {
                                let j = keys.take(i as int).index_of(s);
                                assert(keys.take(i + 1)[j] == s);
                            }
                            if removed_ids(removed@).contains(s) {
                                let j = removed_ids(removed@).index_of(s);
                                assert(removed_ids(before)[j] == s);
                            }
                            if keys.take(i + 1).contains(s) {
                                let j = keys.take(i + 1).index_of(s);
                                assert(keys.take(i as int)[j] == s);
                            }
                            if removed_ids(before).contains(s) {
                                let j = removed_ids(before).index_of(s);
                                assert(removed_ids(removed@)[j] == s);
                            }
                        }
                    }
                    assert forall|a: int, b: int|
                        0 <= a < b < removed_ids(removed@).len() implies removed_ids(removed@)[a]
                        != removed_ids(removed@)[b] by {
                        if b == before.len() {
                            assert(removed_ids(before)[a] == removed_ids(removed@)[a]);
                            assert(removed_ids(before).contains(removed_ids(removed@)[a]));
                        } else {
                            assert(removed_ids(before)[a] == removed_ids(removed@)[a]);
                            assert(removed_ids(before)[b] == removed_ids(removed@)[b]);
                        }
                    }
                }
            }
            proof {
                assert forall|s: Seq<char>| #[trigger]
                    kept@.contains_key(s) <==> keys.take(i + 1).contains(s) && act.contains(s) by {
                    if s != kv {
                        if keys.take(i + 1).contains(s) {
                            let j = keys.take(i + 1).index_of(s);
                            assert(keys.take(i as int)[j] == s);
                        }
                        if keys.take(i as int).contains(s) {
                            let j = keys.take(i as int).index_of(s);
                            assert(keys.take(i + 1)[j] == s);
                        }
                    } else {
                        assert(keys.take(i + 1)[i as int] == kv);
                    }
                }
            }
            i = i + 1;
        }
        proof {
            assert(keys.take(i as int) =~= keys);
        }
        self.loaded_ids = kept;
        proof {
            assert(self.loaded() =~= old(self).loaded().intersect(act));
            assert(removed_ids(removed@).to_set() =~= old(self).loaded().difference(act));
        }
        removed
    }
}

/// A loaded deployment is never reported as new again: once a row's blob is
/// accepted, no later row with the same id is wanted, by either kind of
/// poll.
pub proof fn law_loaded_not_returned_again(
    loaded: Set<Seq<char>>,
    region: Seq<char>,
    id: Seq<char>,
    row_region: Seq<char>,
    row_status: Seq<char>,
)
    ensures
        !wanted_by_poll(loaded.insert(id), id),
        !wanted_by_cdc(loaded.insert(id), region, id, row_region, row_status),
{
}

/// A poll returns only new rows, each once: every row it accepts is one the
/// watcher wanted given what was loaded before the poll, and no id comes
/// twice or was loaded before.
pub proof fn law_poll_returns_new_rows_once(
    loaded: Set<Seq<char>>,
    region: Seq<char>,
    by_cdc: bool,
    rows: Seq<(DeploymentRow, Option<Vec<u8>>)>,
)
    ensures
        forall|k: int|
            0 <= k < polled(loaded, region, by_cdc, rows).len() ==> wanted(
                loaded,
                region,
                by_cdc,
                (#[trigger] polled(loaded, region, by_cdc, rows)[k]).0,
            ),
        forall|k: int|
            0 <= k < polled(loaded, region, by_cdc, rows).len() ==> !loaded.contains(
                #[trigger] row_ids(polled(loaded, region, by_cdc, rows))[k],
            ),
        row_ids(polled(loaded, region, by_cdc, rows)).no_duplicates(),
    decreases rows.len(),
{
    if rows.len() > 0 {
        law_poll_returns_new_rows_once(loaded, region, by_cdc, rows.drop_last());
        let prev = polled(loaded, region, by_cdc, rows.drop_last());
        let p = polled(loaded, region, by_cdc, rows);
        let (r, b) = rows.last();
        if b is Some && wanted(loaded.union(row_ids(prev).to_set()), region, by_cdc, r) {
            assert(row_ids(p) =~= row_ids(prev).push(r.deployment_id@));
            assert(!row_ids(prev).contains(r.deployment_id@)) by {
                if row_ids(prev).contains(r.deployment_id@) {
                    assert(row_ids(prev).to_set().contains(r.deployment_id@));
                }
            }
            assert forall|k: int| 0 <= k < p.len() implies wanted(
                loaded,
                region,
                by_cdc,
                (#[trigger] p[k]).0,
            ) by {
                if k < prev.len() {
                    assert(p[k] == prev[k]);
                }
            }
            assert forall|k: int| 0 <= k < p.len() implies !loaded.contains(
                #[trigger] row_ids(p)[k],
            ) by {
                if k < prev.len() {
                    assert(row_ids(p)[k] == row_ids(prev)[k]);
                }
            }
            assert forall|a: int, c: int|
                0 <= a < c < row_ids(p).len() implies row_ids(p)[a] != row_ids(p)[c] by {
                if c == prev.len() {
                    assert(row_ids(p)[a] == row_ids(prev)[a]);
                } else {
                    assert(row_ids(p)[a] == row_ids(prev)[a]);
                    assert(row_ids(p)[c] == row_ids(prev)[c]);
                }
            }
        }
    }
}

/// Within a poll, the rows accepted from a prefix of the rows are a prefix
/// of those accepted from all of them.
proof fn lemma_polled_grows(
    loaded: Set<Seq<char>>,
    region: Seq<char>,
    by_cdc: bool,
    rows: Seq<(DeploymentRow, Option<Vec<u8>>)>,
)
    requires
        rows.len() > 0,
    ensures
        row_ids(polled(loaded, region, by_cdc, rows.drop_last())).to_set().subset_of(
            row_ids(polled(loaded, region, by_cdc, rows)).to_set(),
        ),
{
    let prev = polled(loaded, region, by_cdc, rows.drop_last());
    let p = polled(loaded, region, by_cdc, rows);
    assert forall|x: Seq<char>| row_ids(prev).to_set().contains(x) implies row_ids(
        p,
    ).to_set().contains(x) by {
        let j = choose|j: int| 0 <= j < row_ids(prev).len() && row_ids(prev)[j] == x;
        assert(row_ids(p)[j] == x);
    }
}

/// After a poll, polling the same rows again returns nothing, whatever else
/// was loaded meanwhile.
proof fn lemma_repoll_empty(
    loaded: Set<Seq<char>>,
    later: Set<Seq<char>>,
    region: Seq<char>,
    by_cdc: bool,
    rows: Seq<(DeploymentRow, Option<Vec<u8>>)>,
)
    requires
        loaded.union(row_ids(polled(loaded, region, by_cdc, rows)).to_set()).subset_of(later),
    ensures
        polled(later, region, by_cdc, rows).len() == 0,
    decreases rows.len(),
{
    if rows.len() > 0 {
        lemma_polled_grows(loaded, region, by_cdc, rows);
        lemma_repoll_empty(loaded, later, region, by_cdc, rows.drop_last());
        let prev = polled(loaded, region, by_cdc, rows.drop_last());
        let p = polled(loaded, region, by_cdc, rows);
        let empty_prev = polled(later, region, by_cdc, rows.drop_last());
        let (r, b) = rows.last();
        assert(row_ids(empty_prev).to_set() =~= Set::<Seq<char>>::empty());
        assert(later.union(row_ids(empty_prev).to_set()) =~= later);
        if b is Some && wanted(later, region, by_cdc, r) {
            assert(wanted(loaded.union(row_ids(prev).to_set()), region, by_cdc, r));
            assert(row_ids(p) =~= row_ids(prev).push(r.deployment_id@));
            assert(row_ids(p)[prev.len() as int] == r.deployment_id@);
            assert(row_ids(p).to_set().contains(r.deployment_id@));
            assert(false);
        }
    }
}

/// Polling is idempotent: a second poll over the same rows, after the
/// first has marked its rows loaded, returns nothing.
pub proof fn law_second_poll_returns_nothing(
    loaded: Set<Seq<char>>,
    region: Seq<char>,
    by_cdc: bool,
    rows: Seq<(DeploymentRow, Option<Vec<u8>>)>,
)
    ensures
        polled(
            loaded.union(row_ids(polled(loaded, region, by_cdc, rows)).to_set()),
            region,
            by_cdc,
            rows,
        ).len() == 0,
{
    lemma_repoll_empty(
        loaded,
        loaded.union(row_ids(polled(loaded, region, by_cdc, rows)).to_set()),
        region,
        by_cdc,
        rows,
    );
}

/// A removed deployment is reported once: after a detection against some
/// active ids, the deployments it reported are no longer loaded, so a
/// second detection, against any active ids, does not report them again.
pub proof fn law_removed_reported_once(
    loaded: Set<Seq<char>>,
    active: Set<Seq<char>>,
    later_active: Set<Seq<char>>,
)
    ensures
        loaded.intersect(active).difference(later_active).disjoint(loaded.difference(active)),
{
    assert forall|s: Seq<char>| !(loaded.intersect(active).difference(later_active).contains(s)
        && loaded.difference(active).contains(s)) by {}
}

} // verus!
