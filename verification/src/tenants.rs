//! Multi-tenant namespace isolation.
//!
//! Each user gets a namespace that scopes deployments and quotas.
//! Deployment ids are prefixed with the namespace: `{namespace}/{name}`.

use vstd::prelude::*;
use crate::text::{chars_of, dec, push_char, push_dec, push_str, to_owned_str};

verus! {

/// Resource limits for a tenant.
#[derive(Debug)]
pub struct TenantLimits {
    pub max_deployments: u32,
    pub max_total_instances: u32,
    pub max_total_memory_bytes: u64,
    pub max_wasm_size_bytes: u64,
    pub regions: Vec<String>,
}

impl Default for TenantLimits {
    /// 3 deployments, 15 instances, 1 GB of memory in total, 10 MB per
    /// component, region `iad`.
    fn default() -> (res: Self)
        ensures
            res.max_deployments == 3,
            res.max_total_instances == 15,
            res.max_total_memory_bytes == 1073741824,
            res.max_wasm_size_bytes == 10485760,
            res.regions@.len() == 1,
            res.regions@[0]@ == "iad"@,
    {
        let mut regions: Vec<String> = Vec::new();
        regions.push(to_owned_str("iad"));
        TenantLimits {
            max_deployments: 3,
            max_total_instances: 15,
            max_total_memory_bytes: 1024 * 1024 * 1024,
            max_wasm_size_bytes: 10 * 1024 * 1024,
            regions,
        }
    }
}

/// Current resource usage for a tenant.
#[derive(Clone, Copy, Debug, PartialEq, Eq, Structural)]
pub struct TenantUsage {
    pub deployment_count: u32,
    pub instance_count: u32,
    pub total_memory_bytes: u64,
    pub total_wasm_bytes: u64,
}

impl Default for TenantUsage {
    /// No usage at all.
    fn default() -> (res: Self)
        ensures
            res == (TenantUsage {
                deployment_count: 0,
                instance_count: 0,
                total_memory_bytes: 0,
                total_wasm_bytes: 0,
            }),
    {
        TenantUsage { deployment_count: 0, instance_count: 0, total_memory_bytes: 0, total_wasm_bytes: 0 }
    }
}

/// A tenant namespace.
#[derive(Debug)]
pub struct Tenant {
    pub namespace: String,
    pub owner_user_id: String,
    pub created_at: u64,
    pub resource_limits: TenantLimits,
    pub usage: TenantUsage,
}

/// The scoped id of a deployment: `{namespace}/{name}`.
pub open spec fn scoped_id(namespace: Seq<char>, name: Seq<char>) -> Seq<char> {
    namespace + seq!['/'] + name
}

/// `str::split_once('/')`: the parts before and after the first `/`.
pub open spec fn split_first_slash(s: Seq<char>) -> Option<(Seq<char>, Seq<char>)> {
    if s.contains('/') {
        let i = s.index_of_first('/').unwrap();
        Some((s.take(i), s.skip(i + 1)))
    } else {
        None
    }
}

/// Scoped deployment id: `{namespace}/{name}`.
pub fn scoped_deployment_id(namespace: &str, name: &str) -> (res: String)
    ensures
        res@ == scoped_id(namespace@, name@),
{
    let mut s = to_owned_str(namespace);
    push_char(&mut s, '/');
    push_str(&mut s, name);
    s
}

/// Splits a scoped deployment id into namespace and name at its first `/`.
pub fn extract_namespace(scoped_id: &str) -> (res: Option<(&str, &str)>)
    ensures
        match res {
            Some((ns, name)) => split_first_slash(scoped_id@) == Some((ns@, name@)),
            None => split_first_slash(scoped_id@) is None,
        },
{
    let cs = chars_of(scoped_id);
    let n = cs.len();
    let mut i: usize = 0;
    while i < n && cs[i] != '/'
        invariant
            n == cs@.len(),
            i <= n,
            forall|k: int| 0 <= k < i ==> cs@[k] != '/',
        decreases n - i,
    {
        i = i + 1;
    }
    proof {
        cs@.index_of_first_ensures('/');
    }
    if i == n {
        return None;
    }
    proof {
        assert(cs@.contains('/'));
        assert(cs@.index_of_first('/').unwrap() == i);
    }
    let ns = scoped_id.substring_char(0, i);
    let name = scoped_id.substring_char(i + 1, n);
    proof {
        assert(ns@ =~= cs@.take(i as int));
        assert(name@ =~= cs@.skip(i + 1));
    }
    Some((ns, name))
}

/// Splitting a scoped id gives back its namespace and name, provided the
/// namespace itself holds no `/`.
pub proof fn law_scoped_id_roundtrip(namespace: Seq<char>, name: Seq<char>)
    requires
        !namespace.contains('/'),
    ensures
        split_first_slash(scoped_id(namespace, name)) == Some((namespace, name)),
{
    let s = scoped_id(namespace, name);
    let n = namespace.len() as int;
    assert(s[n] == '/');
    assert(s.contains('/'));
    s.index_of_first_ensures('/');
    let i = s.index_of_first('/').unwrap();
    if i < n {
        assert(s[i] == namespace[i]);
        assert(namespace.contains('/'));
    }
    assert(i == n);
    assert(s.take(n) =~= namespace);
    assert(s.skip(n + 1) =~= name);
}

/// Quota violation error.
#[derive(Debug)]
#[allow(inconsistent_fields)]
pub enum QuotaError {
    MaxDeployments { current: u32, max: u32 },
    MaxInstances { current: u32, max: u32 },
    WasmTooLarge { size: u64, max: u64 },
    MemoryExceeded { used: u64, max: u64 },
    RegionNotAllowed { region: String },
}

/// The message of a quota error; sizes are shown in whole KB and MB.
pub open spec fn quota_error_text(e: QuotaError) -> Seq<char> {
    match e {
        QuotaError::MaxDeployments { current, max } => "deployment limit reached ("@ + dec(
            current as nat,
        ) + "/"@ + dec(max as nat) + ")"@,
        QuotaError::MaxInstances { current, max } => "instance limit reached ("@ + dec(
            current as nat,
        ) + "/"@ + dec(max as nat) + ")"@,
        QuotaError::WasmTooLarge { size, max } => "Wasm component too large ("@ + dec(
            (size / 1024) as nat,
        ) + " KB, max "@ + dec((max / 1024) as nat) + " KB)"@,
        QuotaError::MemoryExceeded { used, max } => "memory limit exceeded ("@ + dec(
            (used / 1048576) as nat,
        ) + " MB / "@ + dec((max / 1048576) as nat) + " MB)"@,
        QuotaError::RegionNotAllowed { region } => "region '"@ + region@
            + "' not allowed for this plan"@,
    }
}

impl QuotaError {
    /// The human-readable message.
    pub fn to_string(&self) -> (res: String)
        ensures
            res@ == quota_error_text(*self),
    {
        let mut s = String::new();
        match self {
            QuotaError::MaxDeployments { current, max } => {
                push_str(&mut s, "deployment limit reached (");
                push_dec(&mut s, *current as u64);
                push_str(&mut s, "/");
                push_dec(&mut s, *max as u64);
                push_str(&mut s, ")");
            },
            QuotaError::MaxInstances { current, max } => {
                push_str(&mut s, "instance limit reached (");
                push_dec(&mut s, *current as u64);
                push_str(&mut s, "/");
                push_dec(&mut s, *max as u64);
                push_str(&mut s, ")");
            },
            QuotaError::WasmTooLarge { size, max } => {
                push_str(&mut s, "Wasm component too large (");
                push_dec(&mut s, *size / 1024);
                push_str(&mut s, " KB, max ");
                push_dec(&mut s, *max / 1024);
                push_str(&mut s, " KB)");
            },
            QuotaError::MemoryExceeded { used, max } => {
                push_str(&mut s, "memory limit exceeded (");
                push_dec(&mut s, *used / (1024 * 1024));
                push_str(&mut s, " MB / ");
                push_dec(&mut s, *max / (1024 * 1024));
                push_str(&mut s, " MB)");
            },
            QuotaError::RegionNotAllowed { region } => {
                push_str(&mut s, "region '");
                push_str(&mut s, region.as_str());
                push_str(&mut s, "' not allowed for this plan");
            },
        }
        proof {
            assert(s@ =~= quota_error_text(*self));
        }
        s
    }
}

/// Whether a tenant can create a deployment with a component of
/// `wasm_size_bytes`: under its deployment limit, and the component within
/// its size limit (checked in that order).
pub fn check_deployment_quota(limits: &TenantLimits, usage: &TenantUsage, wasm_size_bytes: u64) -> (res:
    Result<(), QuotaError>)
    ensures
        usage.deployment_count >= limits.max_deployments ==> res == Err::<(), QuotaError>(
            QuotaError::MaxDeployments {
                current: usage.deployment_count,
                max: limits.max_deployments,
            },
        ),
        usage.deployment_count < limits.max_deployments && wasm_size_bytes
            > limits.max_wasm_size_bytes ==> res == Err::<(), QuotaError>(
            QuotaError::WasmTooLarge { size: wasm_size_bytes, max: limits.max_wasm_size_bytes },
        ),
        usage.deployment_count < limits.max_deployments && wasm_size_bytes
            <= limits.max_wasm_size_bytes ==> res is Ok,
{
    if usage.deployment_count >= limits.max_deployments {
        return Err(
            QuotaError::MaxDeployments {
                current: usage.deployment_count,
                max: limits.max_deployments,
            },
        );
    }
    if wasm_size_bytes > limits.max_wasm_size_bytes {
        return Err(QuotaError::WasmTooLarge { size: wasm_size_bytes, max: limits.max_wasm_size_bytes });
    }
    Ok(())
}

} // verus!
