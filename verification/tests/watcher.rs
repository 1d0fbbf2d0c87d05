use std::collections::HashMap;

use warpgrid::watcher::{DeploymentRow, NewDeployment, WatcherState};

/// A stand-in for the replica: deployment rows and Wasm blobs by hash.
struct Db {
    rows: Vec<(String, String, String, String, String, String)>,
    blobs: HashMap<String, Vec<u8>>,
}

impl Db {
    fn new() -> Self {
        Db { rows: Vec::new(), blobs: HashMap::new() }
    }

    fn insert_blob(&mut self, hash: &str, wasm: &[u8]) {
        self.blobs.insert(hash.to_string(), wasm.to_vec());
    }

    fn insert_deployment(&mut self, id: &str, ns: &str, name: &str, hash: &str, region: &str, status: &str) {
        self.rows.push((
            id.to_string(),
            ns.to_string(),
            name.to_string(),
            hash.to_string(),
            region.to_string(),
            status.to_string(),
        ));
    }

    fn delete(&mut self, id: &str) {
        self.rows.retain(|r| r.0 != id);
    }

    fn row(r: &(String, String, String, String, String, String)) -> DeploymentRow {
        DeploymentRow {
            deployment_id: r.0.clone(),
            namespace: r.1.clone(),
            name: r.2.clone(),
            wasm_hash: r.3.clone(),
            region: r.4.clone(),
            status: r.5.clone(),
        }
    }

    /// One poll: with change capture every changed row (its change id
    /// recorded), else the direct query's active rows of the region; each
    /// with its blob, handed to the watcher.
    fn poll_once(&self, w: &mut WatcherState) -> Vec<NewDeployment> {
        let region = w.region().to_string();
        let cdc = w.cdc_available();
        let mut rows = Vec::new();
        for (i, r) in self.rows.iter().enumerate() {
            if cdc {
                w.record_change_id(i as i64 + 1);
            } else if !(r.4 == region && r.5 == "active") {
                continue;
            }
            let row = Db::row(r);
            let blob = self.blobs.get(&row.wasm_hash).cloned();
            rows.push((row, blob));
        }
        w.poll_once(rows)
    }

    /// Change capture: every changed row, filtered by the watcher row by
    /// row.
    fn poll_cdc(&self, w: &mut WatcherState) -> Vec<NewDeployment> {
        let mut out = Vec::new();
        for (i, r) in self.rows.iter().enumerate() {
            w.record_change_id(i as i64 + 1);
            let row = Db::row(r);
            if !w.wants_cdc_row(&row) {
                continue;
            }
            let blob = self.blobs.get(&row.wasm_hash).cloned();
            if let Some(d) = w.accept_row(row, blob) {
                out.push(d);
            }
        }
        out
    }

    fn poll_removed(&self, w: &mut WatcherState) -> Vec<String> {
        let region = w.region().to_string();
        let active: Vec<String> =
            self.rows.iter().filter(|r| r.4 == region && r.5 == "active").map(|r| r.0.clone()).collect();
        w.detect_removed(&active).into_iter().map(|r| r.deployment_id).collect()
    }
}

#[test]
fn detects_new_deployment() {
    let mut db = Db::new();
    db.insert_blob("hash-abc", b"fake-wasm-module");
    db.insert_deployment("dep-1", "ns1", "my-app", "hash-abc", "iad", "active");
    let mut w = WatcherState::new("iad");
    let new = db.poll_once(&mut w);
    assert_eq!(new.len(), 1);
    assert_eq!(new[0].deployment_id, "dep-1");
    assert_eq!(new[0].namespace, "ns1");
    assert_eq!(new[0].name, "my-app");
    assert_eq!(new[0].wasm_hash, "hash-abc");
    assert_eq!(new[0].wasm_bytes, b"fake-wasm-module");
    assert_eq!(new[0].region, "iad");
}

#[test]
fn no_duplicates_on_second_poll() {
    let mut db = Db::new();
    db.insert_blob("hash-abc", b"fake-wasm");
    db.insert_deployment("dep-1", "ns1", "app", "hash-abc", "iad", "active");
    let mut w = WatcherState::new("iad");
    assert_eq!(db.poll_once(&mut w).len(), 1);
    assert_eq!(db.poll_once(&mut w).len(), 0, "second poll should return no new deployments");
}

#[test]
fn filters_by_region() {
    let mut db = Db::new();
    db.insert_blob("hash-1", b"wasm-1");
    db.insert_blob("hash-2", b"wasm-2");
    db.insert_deployment("dep-iad", "ns1", "app-iad", "hash-1", "iad", "active");
    db.insert_deployment("dep-sfo", "ns1", "app-sfo", "hash-2", "sfo", "active");
    let mut w = WatcherState::new("iad");
    let new = db.poll_cdc(&mut w);
    assert_eq!(new.len(), 1);
    assert_eq!(new[0].deployment_id, "dep-iad");
}

#[test]
fn detects_removed_deployment() {
    let mut db = Db::new();
    db.insert_blob("hash-abc", b"fake-wasm");
    db.insert_deployment("dep-1", "ns1", "app", "hash-abc", "iad", "active");
    let mut w = WatcherState::new("iad");
    assert_eq!(db.poll_once(&mut w).len(), 1);
    db.delete("dep-1");
    let removed = db.poll_removed(&mut w);
    assert_eq!(removed, vec!["dep-1".to_string()]);
    assert_eq!(db.poll_removed(&mut w).len(), 0);
}

#[test]
fn skips_inactive_deployments() {
    let mut db = Db::new();
    db.insert_blob("hash-abc", b"fake-wasm");
    db.insert_deployment("dep-1", "ns1", "app", "hash-abc", "iad", "paused");
    let mut w = WatcherState::new("iad");
    assert_eq!(db.poll_cdc(&mut w).len(), 0, "paused deployments should not be loaded");
    assert_eq!(db.poll_once(&mut w).len(), 0);
}

#[test]
fn detects_new_after_initial_load() {
    let mut db = Db::new();
    db.insert_blob("hash-1", b"wasm-1");
    db.insert_deployment("dep-1", "ns1", "app1", "hash-1", "iad", "active");
    let mut w = WatcherState::new("iad");
    assert_eq!(db.poll_once(&mut w).len(), 1);
    db.insert_blob("hash-2", b"wasm-2");
    db.insert_deployment("dep-2", "ns1", "app2", "hash-2", "iad", "active");
    let second = db.poll_once(&mut w);
    assert_eq!(second.len(), 1);
    assert_eq!(second[0].deployment_id, "dep-2");
}

#[test]
fn loaded_ids_tracks_state() {
    let mut db = Db::new();
    db.insert_blob("hash-1", b"wasm-1");
    db.insert_blob("hash-2", b"wasm-2");
    db.insert_deployment("dep-1", "ns1", "app1", "hash-1", "iad", "active");
    db.insert_deployment("dep-2", "ns1", "app2", "hash-2", "iad", "active");
    let mut w = WatcherState::new("iad");
    db.poll_once(&mut w);
    let ids = w.loaded_deployment_ids();
    assert!(ids.contains(&"dep-1".to_string()));
    assert!(ids.contains(&"dep-2".to_string()));
    assert_eq!(ids.len(), 2);
}

#[test]
fn missing_blob_is_retried() {
    let mut db = Db::new();
    db.insert_deployment("dep-1", "ns1", "app", "hash-late", "iad", "active");
    let mut w = WatcherState::new("iad");
    assert_eq!(db.poll_once(&mut w).len(), 0);
    assert!(!w.is_loaded("dep-1"));
    db.insert_blob("hash-late", b"wasm");
    assert_eq!(db.poll_once(&mut w).len(), 1);
    assert!(w.is_loaded("dep-1"));
}

#[test]
fn change_ids_only_advance() {
    let mut w = WatcherState::new("iad");
    assert_eq!(w.last_change_id(), 0);
    assert!(!w.cdc_available());
    w.set_cdc_enabled(true);
    assert!(w.cdc_available());
    w.record_change_id(7);
    w.record_change_id(3);
    assert_eq!(w.last_change_id(), 7);
    w.cdc_failed();
    assert!(!w.cdc_available());
    assert_eq!(w.last_change_id(), 7);
}

fn row(id: &str, region: &str, status: &str) -> DeploymentRow {
    DeploymentRow {
        deployment_id: id.to_string(),
        namespace: "ns".to_string(),
        name: "app".to_string(),
        wasm_hash: format!("h-{id}"),
        region: region.to_string(),
        status: status.to_string(),
    }
}

#[test]
fn poll_returns_each_new_id_once_and_marks_it_loaded() {
    let mut w = WatcherState::new("iad");
    let rows = vec![
        (row("a", "iad", "active"), Some(b"A".to_vec())),
        (row("b", "iad", "active"), None),
        (row("a", "iad", "active"), Some(b"A2".to_vec())),
        (row("c", "iad", "active"), Some(b"C".to_vec())),
    ];
    let new = w.poll_once(rows);
    let ids: Vec<&str> = new.iter().map(|d| d.deployment_id.as_str()).collect();
    assert_eq!(ids, vec!["a", "c"]);
    assert_eq!(new[0].wasm_bytes, b"A");
    assert!(w.is_loaded("a") && w.is_loaded("c") && !w.is_loaded("b"));
    let again = vec![
        (row("a", "iad", "active"), Some(b"A".to_vec())),
        (row("b", "iad", "active"), None),
        (row("c", "iad", "active"), Some(b"C".to_vec())),
    ];
    assert!(w.poll_once(again).is_empty());
}

#[test]
fn cdc_poll_filters_region_and_status() {
    let mut w = WatcherState::new("iad");
    w.set_cdc_enabled(true);
    let rows = vec![
        (row("x", "ord", "active"), Some(b"X".to_vec())),
        (row("y", "iad", "inactive"), Some(b"Y".to_vec())),
        (row("z", "iad", "active"), Some(b"Z".to_vec())),
    ];
    let new = w.poll_once(rows);
    assert_eq!(new.len(), 1);
    assert_eq!(new[0].deployment_id, "z");
    assert_eq!(new[0].region, "iad");
    let mut plain = WatcherState::new("iad");
    let direct = plain.poll_once(vec![(row("x", "ord", "active"), Some(b"X".to_vec()))]);
    assert_eq!(direct.len(), 1, "the direct query has filtered already");
}
