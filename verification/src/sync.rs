//! The rows an edge agent pushes to the global database: its instances
//! and nodes, tagged with its region, in the columns' types.
//!
//! Unsigned counters and times go into signed 64-bit columns as a cast
//! does; statuses are written in lower case.

use vstd::prelude::*;
use crate::cluster::NodeInfo;
use crate::dashboard::{health_name_text, status_name_text, HealthStatus, InstanceState, InstanceStatus};
use crate::text::{ascii_lower, to_owned_str};

verus! {

/// A row of `cloud_instances`.
#[derive(Debug)]
pub struct InstanceRow {
    pub id: String,
    pub deployment_id: String,
    pub node_id: String,
    pub region: String,
    pub status: String,
    pub health: String,
    pub restart_count: i64,
    pub memory_bytes: i64,
    pub started_at: i64,
    pub updated_at: i64,
}

/// A row of `cloud_nodes`.
#[derive(Debug)]
pub struct NodeRow {
    pub id: String,
    pub region: String,
    pub address: String,
    pub port: i64,
    pub capacity_memory_bytes: i64,
    pub capacity_cpu_weight: i64,
    pub used_memory_bytes: i64,
    pub used_cpu_weight: i64,
    pub labels_json: String,
    pub last_heartbeat: i64,
}

/// An instance status in the database: its name in lower case.
pub open spec fn status_column(s: InstanceStatus) -> Seq<char> {
    match s {
        InstanceStatus::Running => "running"@,
        InstanceStatus::Starting => "starting"@,
        InstanceStatus::Unhealthy => "unhealthy"@,
        InstanceStatus::Stopping => "stopping"@,
        InstanceStatus::Stopped => "stopped"@,
    }
}

/// A health status in the database: its name in lower case.
pub open spec fn health_column(h: HealthStatus) -> Seq<char> {
    match h {
        HealthStatus::Healthy => "healthy"@,
        HealthStatus::Unhealthy => "unhealthy"@,
        HealthStatus::Unknown => "unknown"@,
    }
}

fn status_text(s: InstanceStatus) -> (res: &'static str)
    ensures
        res@ == status_column(s),
{
    match s {
        InstanceStatus::Running => "running",
        InstanceStatus::Starting => "starting",
        InstanceStatus::Unhealthy => "unhealthy",
        InstanceStatus::Stopping => "stopping",
        InstanceStatus::Stopped => "stopped",
    }
}

fn health_text(h: HealthStatus) -> (res: &'static str)
    ensures
        res@ == health_column(h),
{
    match h {
        HealthStatus::Healthy => "healthy",
        HealthStatus::Unhealthy => "unhealthy",
        HealthStatus::Unknown => "unknown",
    }
}

/// The row of an instance of the agent's region.
pub fn instance_row(inst: &InstanceState, region: &str) -> (res: InstanceRow)
    ensures
        res.id@ == inst.id@,
        res.deployment_id@ == inst.deployment_id@,
        res.node_id@ == inst.node_id@,
        res.region@ == region@,
        res.status@ == status_column(inst.status),
        res.health@ == health_column(inst.health),
        res.restart_count == inst.restart_count as i64,
        res.memory_bytes == inst.memory_bytes as i64,
        res.started_at == inst.started_at as i64,
        res.updated_at == inst.updated_at as i64,
{
    InstanceRow {
        id: inst.id.clone(),
        deployment_id: inst.deployment_id.clone(),
        node_id: inst.node_id.clone(),
        region: to_owned_str(region),
        status: to_owned_str(status_text(inst.status)),
        health: to_owned_str(health_text(inst.health)),
        restart_count: inst.restart_count as i64,
        memory_bytes: inst.memory_bytes as i64,
        started_at: inst.started_at as i64,
        updated_at: inst.updated_at as i64,
    }
}

/// The row of a node of the agent's region; its labels come encoded as
/// JSON by the caller.
pub fn node_row(node: &NodeInfo, region: &str, labels_json: String) -> (res: NodeRow)
    ensures
        res.id@ == node.id@,
        res.region@ == region@,
        res.address@ == node.address@,
        res.port == node.port as i64,
        res.capacity_memory_bytes == node.capacity_memory_bytes as i64,
        res.capacity_cpu_weight == node.capacity_cpu_weight as i64,
        res.used_memory_bytes == node.used_memory_bytes as i64,
        res.used_cpu_weight == node.used_cpu_weight as i64,
        res.labels_json == labels_json,
        res.last_heartbeat == node.last_heartbeat as i64,
{
    NodeRow {
        id: node.id.clone(),
        region: to_owned_str(region),
        address: node.address.clone(),
        port: node.port as i64,
        capacity_memory_bytes: node.capacity_memory_bytes as i64,
        capacity_cpu_weight: node.capacity_cpu_weight as i64,
        used_memory_bytes: node.used_memory_bytes as i64,
        used_cpu_weight: node.used_cpu_weight as i64,
        labels_json,
        last_heartbeat: node.last_heartbeat as i64,
    }
}

/// The database form of a status is its name in lower case.
pub proof fn law_status_column_is_lower_name(s: InstanceStatus, h: HealthStatus)
    ensures
        status_column(s) == status_name_text(s).map_values(|c: char| ascii_lower(c)),
        health_column(h) == health_name_text(h).map_values(|c: char| ascii_lower(c)),
{
    reveal_strlit("running");
    reveal_strlit("Running");
    reveal_strlit("starting");
    reveal_strlit("Starting");
    reveal_strlit("unhealthy");
    reveal_strlit("Unhealthy");
    reveal_strlit("stopping");
    reveal_strlit("Stopping");
    reveal_strlit("stopped");
    reveal_strlit("Stopped");
    reveal_strlit("healthy");
    reveal_strlit("Healthy");
    reveal_strlit("unknown");
    reveal_strlit("Unknown");
    assert(status_column(s) =~= status_name_text(s).map_values(|c: char| ascii_lower(c)));
    assert(health_column(h) =~= health_name_text(h).map_values(|c: char| ascii_lower(c)));
}

} // verus!
