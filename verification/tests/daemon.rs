use warpgrid::cluster::NodeInfo;
use warpgrid::strmap::StrMap;
use warpgrid::sync::{instance_row, node_row};
use warpgrid::daemon::{
    agent_instance_record, agent_labels, choose_cloud_db, local_control_plane_url, parse_regions, CloudDbChoice,
};
use warpgrid::dashboard::{HealthStatus, InstanceStatus};
use warpgrid::provisioner::{machine_regions, regions_to_provision, ProvisionedMachine};

#[test]
fn parse_regions_trims_and_skips_empty() {
    assert_eq!(parse_regions("iad,ams,sin"), vec!["iad", "ams", "sin"]);
    assert_eq!(parse_regions(" iad , ams ,, sin ,"), vec!["iad", "ams", "sin"]);
    assert_eq!(parse_regions(""), Vec::<String>::new());
    assert_eq!(parse_regions(" , "), Vec::<String>::new());
    assert_eq!(parse_regions("iad"), vec!["iad"]);
}

#[test]
fn control_plane_url_for_local_cloud() {
    assert_eq!(local_control_plane_url(8443), "http://localhost:8443");
}

#[test]
fn cloud_db_selection() {
    match choose_cloud_db(Some("libsql://db.turso.io"), Some("tok")).unwrap() {
        CloudDbChoice::Replica { url, auth_token } => {
            assert_eq!(url, "libsql://db.turso.io");
            assert_eq!(auth_token, "tok");
        }
        CloudDbChoice::Local => panic!("expected a replica"),
    }
    assert!(matches!(choose_cloud_db(None, None).unwrap(), CloudDbChoice::Local));
    assert!(matches!(choose_cloud_db(None, Some("tok")).unwrap(), CloudDbChoice::Local));
    assert_eq!(
        choose_cloud_db(Some("libsql://db.turso.io"), None).unwrap_err(),
        "TURSO_DATABASE_URL is set but TURSO_AUTH_TOKEN is missing"
    );
}

#[test]
fn agent_records() {
    let labels = agent_labels("ams");
    assert_eq!(labels.get("region").map(|s| s.as_str()), Some("ams"));
    assert_eq!(labels.len(), 1);
    let rec = agent_instance_record("ns/app", 1234, "ams", 1000);
    assert_eq!(rec.id, "ns/app-0");
    assert_eq!(rec.node_id, "ams");
    assert_eq!(rec.status, InstanceStatus::Running);
    assert_eq!(rec.health, HealthStatus::Healthy);
    assert_eq!(rec.memory_bytes, 1234);
    assert_eq!((rec.started_at, rec.updated_at), (1000, 1000));
}

#[test]
fn provision_skips_existing_regions() {
    let machine = |region: &str| ProvisionedMachine {
        id: format!("m-{region}"),
        name: format!("warpgrid-edge-{region}"),
        region: region.to_string(),
        state: "started".to_string(),
        instance_id: "i".to_string(),
        private_ip: "fdaa::1".to_string(),
    };
    let existing = machine_regions(&vec![machine("ams"), machine("sin")]);
    assert_eq!(existing, vec!["ams", "sin"]);
    let todo = regions_to_provision(&parse_regions("iad,ams,sin,syd"), &existing);
    assert_eq!(todo, vec!["iad", "syd"]);
}

#[test]
fn sync_rows() {
    let rec = agent_instance_record("ns/app", 1234, "ams", 1000);
    let row = instance_row(&rec, "ams");
    assert_eq!(row.status, "running");
    assert_eq!(row.health, "healthy");
    assert_eq!(row.region, "ams");
    assert_eq!(row.memory_bytes, 1234);
    assert_eq!(row.started_at, 1000);
    let node = NodeInfo {
        id: "node-1".to_string(),
        address: "10.0.0.1".to_string(),
        port: 8443,
        capacity_memory_bytes: u64::MAX,
        capacity_cpu_weight: 1000,
        used_memory_bytes: 5,
        used_cpu_weight: 6,
        labels: StrMap::new(),
        last_heartbeat: 77,
    };
    let row = node_row(&node, "ams", "{}".to_string());
    assert_eq!(row.port, 8443);
    assert_eq!(row.capacity_memory_bytes, -1);
    assert_eq!(row.labels_json, "{}");
    assert_eq!(row.last_heartbeat, 77);
}
