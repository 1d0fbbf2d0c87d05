//! Decisions of the cloud API's request handlers: authentication, the
//! admission of uploads, ownership checks and the status codes of refusals.
//!
//! Every route authenticates with `Authorization: Bearer wg_live_...`, and
//! users only see and change the resources of their own namespace.

use vstd::prelude::*;
use crate::auth::{AuthStore, User};
use crate::domains::{domain_key, AddDomainResponse, DomainError, DomainStore};
use crate::teams::{grants, Team, TeamError, TeamRole, TeamStore};
use crate::tenants::{extract_namespace, scoped_deployment_id, scoped_id, split_first_slash};
use crate::text::{
    chars_of, dec, push_dec, push_str, starts_with, str_contains_char, str_eq,
    string_of, to_owned_str,
};

use crate::dashboard::TriggerConfig;
use crate::strmap::StrMap;
use crate::views::{DeploymentSpec, InstanceConstraints, ResourceLimits, ShimsEnabled};

verus! {

/// A refused request: the HTTP status and the error message.
#[derive(Debug)]
pub struct ApiError {
    pub status: u16,
    pub message: String,
}

fn api_error(status: u16, message: &str) -> (res: ApiError)
    ensures
        res.status == status,
        res.message@ == message@,
{
    ApiError { status, message: to_owned_str(message) }
}

/// The token of an `Authorization: Bearer <token>` header.
pub open spec fn bearer_token_spec(header: Seq<char>) -> Option<Seq<char>> {
    if starts_with(header, "Bearer "@) {
        Some(header.skip(7))
    } else {
        None
    }
}

/// The API key of a request, from its `Authorization` header (when present
/// and readable as text).
pub fn bearer_token(authorization: Option<&str>) -> (res: Result<String, ApiError>)
    ensures
        authorization is None ==> (res matches Err(e) && e.status == 401 && e.message@
            == "Missing Authorization header"@),
        authorization is Some && bearer_token_spec(authorization.unwrap()@) is None ==> (
        res matches Err(e) && e.status == 401 && e.message@
            == "Invalid Authorization format (expected: Bearer wg_live_...)"@),
        authorization is Some && bearer_token_spec(authorization.unwrap()@) is Some ==> (
        res matches Ok(t) && Some(t@) == bearer_token_spec(authorization.unwrap()@)),
{
    let h = match authorization {
        None => {
            return Err(api_error(401, "Missing Authorization header"));
        },
        Some(h) => h,
    };
    let cs = chars_of(h);
    let p = chars_of("Bearer ");
    proof {
        reveal_strlit("Bearer ");
    }
    if crate::text::matches_at(&cs, &p, 0) {
        proof {
            assert(cs@.subrange(7, cs@.len() as int) =~= h@.skip(7));
        }
        Ok(string_of(&cs, 7, cs.len()))
    } else {
        Err(api_error(401, "Invalid Authorization format (expected: Bearer wg_live_...)"))
    }
}

/// The user a request is made by: its bearer token must be a registered API
/// key.
pub fn extract_user(authorization: Option<&str>, auth: &AuthStore) -> (res: Result<User, ApiError>)
    ensures
        authorization is None ==> (res matches Err(e) && e.status == 401 && e.message@
            == "Missing Authorization header"@),
        authorization is Some && bearer_token_spec(authorization.unwrap()@) is None ==> (
        res matches Err(e) && e.status == 401 && e.message@
            == "Invalid Authorization format (expected: Bearer wg_live_...)"@),
        authorization is Some && bearer_token_spec(authorization.unwrap()@) is Some ==> match auth.user_for_key(
            bearer_token_spec(authorization.unwrap()@).unwrap(),
        ) {
            Some(u) => res matches Ok(v) && v@ == u,
            None => res matches Err(e) && e.status == 401 && e.message@ == "Invalid API key"@,
        },
{
    let token = bearer_token(authorization)?;
    match auth.validate_sync(token.as_str()) {
        Some(u) => Ok(u),
        None => Err(api_error(401, "Invalid API key")),
    }
}

/// A registration is refused, with 400, for an e-mail address that is empty
/// or has no `@`.
pub fn check_registration_email(email: &str) -> (res: Result<(), ApiError>)
    ensures
        (email@.len() == 0 || !email@.contains('@')) ==> (res matches Err(e) && e.status == 400
            && e.message@ == "Invalid email address"@),
        (email@.len() > 0 && email@.contains('@')) ==> res is Ok,
{
    if email.is_empty() || !str_contains_char(email, '@') {
        return Err(api_error(400, "Invalid email address"));
    }
    Ok(())
}

/// How many of the deployments belong to `namespace`, as the quota check
/// counts them (truncated to 32 bits).
pub fn count_in_namespace(namespaces: &Vec<String>, namespace: &str) -> (res: u32)
    ensures
        res == namespaces@.filter(|n: String| n@ == namespace@).len() as u32,
{
    let mut count: usize = 0;
    let mut i: usize = 0;
    while i < namespaces.len()
        invariant
            i <= namespaces@.len(),
            count == namespaces@.take(i as int).filter(|n: String| n@ == namespace@).len(),
            count <= i,
        decreases namespaces@.len() - i,
    {
        proof {
            assert(namespaces@.take(i + 1) =~= namespaces@.take(i as int).push(namespaces@[i as int]));
            namespaces@.take(i as int).lemma_filter_push(
                namespaces@[i as int],
                |n: String| n@ == namespace@,
            );
        }
        if str_eq(namespaces[i].as_str(), namespace) {
            count = count + 1;
        }
        i = i + 1;
    }
    proof {
        assert(namespaces@.take(i as int) =~= namespaces@);
    }
    count as u32
}

/// An upload that passed the checks: its name, region and deployment id.
#[derive(Debug)]
pub struct UploadPlan {
    pub name: String,
    pub region: String,
    pub deployment_id: String,
}

/// The message of an over-size upload: sizes in whole KB.
pub open spec fn too_large_text(size: u64, max: u64) -> Seq<char> {
    "Wasm too large ("@ + dec((size / 1024) as nat) + " KB, max "@ + dec((max / 1024) as nat)
        + " KB)"@
}

/// The message of a namespace at its deployment limit.
pub open spec fn limit_text(count: u32, max: u32) -> Seq<char> {
    "Deployment limit reached ("@ + dec(count as nat) + "/"@ + dec(max as nat) + ")"@
}

/// Checks an upload of a Wasm component, in order: the `X-WarpGrid-Name`
/// header must be present and non-empty (400), the body non-empty (400) and
/// within the user's size quota (403), and the namespace under its
/// deployment limit (403). The region defaults to `iad`; the deployment id
/// is `{namespace}/{name}`.
pub fn check_upload(
    user: &User,
    name_header: Option<&str>,
    region_header: Option<&str>,
    body_len: u64,
    user_deployment_count: u32,
) -> (res: Result<UploadPlan, ApiError>)
    ensures
        !(name_header matches Some(n) && n@.len() > 0) ==> (res matches Err(e) && e.status == 400
            && e.message@ == "X-WarpGrid-Name header required"@),
        (name_header matches Some(n) && n@.len() > 0) && body_len == 0 ==> (res matches Err(e)
            && e.status == 400 && e.message@ == "Empty Wasm binary"@),
        (name_header matches Some(n) && n@.len() > 0) && body_len > 0 && body_len
            > user.quota.max_wasm_size_bytes ==> (res matches Err(e) && e.status == 403
            && e.message@ == too_large_text(body_len, user.quota.max_wasm_size_bytes)),
        (name_header matches Some(n) && n@.len() > 0) && 0 < body_len
            <= user.quota.max_wasm_size_bytes && user_deployment_count
            >= user.quota.max_deployments ==> (res matches Err(e) && e.status == 403 && e.message@
            == limit_text(user_deployment_count, user.quota.max_deployments)),
        (name_header matches Some(n) && n@.len() > 0) && 0 < body_len
            <= user.quota.max_wasm_size_bytes && user_deployment_count
            < user.quota.max_deployments ==> (res matches Ok(p) && p.name@ == name_header.unwrap()@
            && p.region@ == (match region_header {
            Some(r) => r@,
            None => "iad"@,
        }) && p.deployment_id@ == scoped_id(user.namespace@, p.name@)),
{
    let name = match name_header {
        Some(n) => {
            if n.is_empty() {
                return Err(api_error(400, "X-WarpGrid-Name header required"));
            }
            n
        },
        None => {
            return Err(api_error(400, "X-WarpGrid-Name header required"));
        },
    };
    let region = match region_header {
        Some(r) => r,
        None => "iad",
    };
    if body_len == 0 {
        return Err(api_error(400, "Empty Wasm binary"));
    }
    if body_len > user.quota.max_wasm_size_bytes {
        let mut m = String::new();
        push_str(&mut m, "Wasm too large (");
        push_dec(&mut m, body_len / 1024);
        push_str(&mut m, " KB, max ");
        push_dec(&mut m, user.quota.max_wasm_size_bytes / 1024);
        push_str(&mut m, " KB)");
        proof {
            assert(m@ =~= too_large_text(body_len, user.quota.max_wasm_size_bytes));
        }
        return Err(ApiError { status: 403, message: m });
    }
    if user_deployment_count >= user.quota.max_deployments {
        let mut m = String::new();
        push_str(&mut m, "Deployment limit reached (");
        push_dec(&mut m, user_deployment_count as u64);
        push_str(&mut m, "/");
        push_dec(&mut m, user.quota.max_deployments as u64);
        push_str(&mut m, ")");
        proof {
            assert(m@ =~= limit_text(user_deployment_count, user.quota.max_deployments));
        }
        return Err(ApiError { status: 403, message: m });
    }
    let deployment_id = scoped_deployment_id(user.namespace.as_str(), name);
    Ok(UploadPlan { name: to_owned_str(name), region: to_owned_str(region), deployment_id })
}

/// The refusal of an upload whose deployment already exists (409).
pub fn conflict_error(name: &str) -> (res: ApiError)
    ensures
        res.status == 409,
        res.message@ == "Deployment '"@ + name@ + "' already exists"@,
{
    let mut m = String::new();
    push_str(&mut m, "Deployment '");
    push_str(&mut m, name);
    push_str(&mut m, "' already exists");
    proof {
        assert(m@ =~= "Deployment '"@ + name@ + "' already exists"@);
    }
    ApiError { status: 409, message: m }
}

/// Where a deployment's component is taken from:
/// `registry://{namespace}/{name}/{hash}`.
pub fn registry_source(namespace: &str, name: &str, hash: &str) -> (res: String)
    ensures
        res@ == "registry://"@ + namespace@ + "/"@ + name@ + "/"@ + hash@,
{
    let mut s = String::new();
    push_str(&mut s, "registry://");
    push_str(&mut s, namespace);
    push_str(&mut s, "/");
    push_str(&mut s, name);
    push_str(&mut s, "/");
    push_str(&mut s, hash);
    proof {
        assert(s@ =~= "registry://"@ + namespace@ + "/"@ + name@ + "/"@ + hash@);
    }
    s
}

/// The deployment an accepted upload creates at time `now`: id and name
/// from the plan, in the user's namespace, from the stored component;
/// HTTP on port 8080, one to five instances of 64 MB and CPU weight 100,
/// no health check, no shim and no environment.
pub fn uploaded_deployment(namespace: &str, plan: &UploadPlan, hash: &str, now: u64) -> (res: DeploymentSpec)
    ensures
        res.id@ == plan.deployment_id@,
        res.namespace@ == namespace@,
        res.name@ == plan.name@,
        res.source@ == "registry://"@ + namespace@ + "/"@ + plan.name@ + "/"@ + hash@,
        res.trigger == (TriggerConfig::Http { port: Some(8080) }),
        res.instances.min == 1 && res.instances.max == 5,
        res.resources.memory_bytes == 67108864 && res.resources.cpu_weight == 100,
        res.health is None,
        !res.shims.timezone && !res.shims.dev_urandom && !res.shims.dns && !res.shims.signals
            && !res.shims.database_proxy,
        res.env.wf(),
        res.env@ == Map::<Seq<char>, String>::empty(),
        res.created_at == now && res.updated_at == now,
{
    DeploymentSpec {
        id: plan.deployment_id.clone(),
        namespace: to_owned_str(namespace),
        name: plan.name.clone(),
        source: registry_source(namespace, plan.name.as_str(), hash),
        trigger: TriggerConfig::Http { port: Some(8080) },
        instances: InstanceConstraints { min: 1, max: 5 },
        resources: ResourceLimits { memory_bytes: 64 * 1024 * 1024, cpu_weight: 100 },
        health: None,
        shims: ShimsEnabled::default(),
        env: StrMap::new(),
        created_at: now,
        updated_at: now,
    }
}

/// The public URL of a deployment: `https://{name}.{namespace}.edge.warpgrid.dev`.
pub fn deployment_url(name: &str, namespace: &str) -> (res: String)
    ensures
        res@ == "https://"@ + name@ + "."@ + namespace@ + ".edge.warpgrid.dev"@,
{
    let mut s = String::new();
    push_str(&mut s, "https://");
    push_str(&mut s, name);
    push_str(&mut s, ".");
    push_str(&mut s, namespace);
    push_str(&mut s, ".edge.warpgrid.dev");
    proof {
        assert(s@ =~= "https://"@ + name@ + "."@ + namespace@ + ".edge.warpgrid.dev"@);
    }
    s
}

/// Whether a deletion of deployment `id` by a user of `user_namespace` may
/// proceed: a scoped id of another namespace is refused (403); otherwise the
/// namespace and name whose stored components are to be cleaned up, if the
/// id is scoped.
pub fn check_delete<'a>(id: &'a str, user_namespace: &str) -> (res: Result<Option<(&'a str, &'a str)>, ApiError>)
    ensures
        match split_first_slash(id@) {
            Some((ns, name)) => if ns == user_namespace@ {
                res matches Ok(Some((a, b))) && a@ == ns && b@ == name
            } else {
                res matches Err(e) && e.status == 403 && e.message@ == "Not your deployment"@
            },
            None => res matches Ok(None),
        },
{
    match extract_namespace(id) {
        Some((ns, name)) => {
            if str_eq(ns, user_namespace) {
                Ok(Some((ns, name)))
            } else {
                Err(api_error(403, "Not your deployment"))
            }
        },
        None => Ok(None),
    }
}

/// Creates a team for the acting user; refused with 400 when the name is
/// empty.
pub fn create_team_request(teams: &mut TeamStore, name: &str, user_id: &str) -> (res: Result<Team, ApiError>)
    ensures
        name@.len() == 0 ==> (res matches Err(e) && e.status == 400 && e.message@
            == "Team name is required"@) && final(teams)@ == old(teams)@,
        name@.len() > 0 ==> (res matches Ok(t) && t@.name == name@ && t@.owner_user_id == user_id@
            && final(teams)@ == old(teams)@.insert(t@.id, t@)),
{
    if name.is_empty() {
        return Err(api_error(400, "Team name is required"));
    }
    Ok(teams.create_team(name, user_id))
}

/// Adds a member on behalf of `acting_user_id`, who must be an admin or the
/// owner of the team (else 403); a refusal of the store is a 400 with its
/// message.
pub fn add_team_member_request(
    teams: &mut TeamStore,
    team_id: &str,
    acting_user_id: &str,
    member_user_id: &str,
    role: TeamRole,
) -> (res: Result<Team, ApiError>)
    ensures
        !(old(teams)@.contains_key(team_id@) && grants(old(teams)@[team_id@], acting_user_id@, TeamRole::Admin))
            ==> final(teams)@ == old(teams)@ && (res matches Err(e) && e.status == 403 && e.message@
            == "Only team admins and owners can add members"@),
        old(teams)@.contains_key(team_id@) && grants(old(teams)@[team_id@], acting_user_id@, TeamRole::Admin)
            && crate::teams::has_member(old(teams)@[team_id@], member_user_id@) ==> final(teams)@ == old(teams)@
            && (res matches Err(e) && e.status == 400 && e.message@ == "user is already a member: "@ + member_user_id@),
        old(teams)@.contains_key(team_id@) && grants(old(teams)@[team_id@], acting_user_id@, TeamRole::Admin)
            && !crate::teams::has_member(old(teams)@[team_id@], member_user_id@) ==> (res matches Ok(t)
            && final(teams)@ == old(teams)@.insert(team_id@, t@)
            && grants(final(teams)@[team_id@], member_user_id@, TeamRole::Member)),
{
    if !teams.check_permission(team_id, acting_user_id, TeamRole::Admin) {
        return Err(api_error(403, "Only team admins and owners can add members"));
    }
    match teams.add_member(team_id, member_user_id, role) {
        Ok(t) => Ok(t),
        Err(e) => {
            let m = e.to_string();
            Err(ApiError { status: 400, message: m })
        },
    }
}

/// The status of a refused member removal: 403 for the owner, 404 for an
/// unknown team or member, else 400.
pub open spec fn removal_status(e: TeamError) -> u16 {
    match e {
        TeamError::CannotRemoveOwner => 403,
        TeamError::TeamNotFound { .. } => 404,
        TeamError::UserNotMember { .. } => 404,
        _ => 400,
    }
}

/// Removes a member on behalf of `acting_user_id`, who must be an admin or
/// the owner of the team (else 403).
pub fn remove_team_member_request(
    teams: &mut TeamStore,
    team_id: &str,
    acting_user_id: &str,
    member_user_id: &str,
) -> (res: Result<Team, ApiError>)
    ensures
        !(old(teams)@.contains_key(team_id@) && grants(old(teams)@[team_id@], acting_user_id@, TeamRole::Admin))
            ==> final(teams)@ == old(teams)@ && (res matches Err(e) && e.status == 403 && e.message@
            == "Only team admins and owners can remove members"@),
        old(teams)@.contains_key(team_id@) && grants(old(teams)@[team_id@], acting_user_id@, TeamRole::Admin)
            && old(teams)@[team_id@].owner_user_id == member_user_id@ ==> final(teams)@ == old(teams)@
            && (res matches Err(e) && e.status == 403 && e.message@ == "cannot remove the team owner"@),
        old(teams)@.contains_key(team_id@) && grants(old(teams)@[team_id@], acting_user_id@, TeamRole::Admin)
            && old(teams)@[team_id@].owner_user_id != member_user_id@
            && !crate::teams::has_member(old(teams)@[team_id@], member_user_id@) ==> final(teams)@ == old(teams)@
            && (res matches Err(e) && e.status == 404 && e.message@ == "user is not a member: "@ + member_user_id@),
        old(teams)@.contains_key(team_id@) && grants(old(teams)@[team_id@], acting_user_id@, TeamRole::Admin)
            && old(teams)@[team_id@].owner_user_id != member_user_id@
            && crate::teams::has_member(old(teams)@[team_id@], member_user_id@) ==> (res matches Ok(t)
            && final(teams)@ == old(teams)@.insert(team_id@, t@)
            && !crate::teams::has_member(final(teams)@[team_id@], member_user_id@)),
{
    if !teams.check_permission(team_id, acting_user_id, TeamRole::Admin) {
        return Err(api_error(403, "Only team admins and owners can remove members"));
    }
    match teams.remove_member(team_id, member_user_id) {
        Ok(t) => Ok(t),
        Err(e) => {
            let status: u16 = match &e {
                TeamError::CannotRemoveOwner => 403,
                TeamError::TeamNotFound { .. } => 404,
                TeamError::UserNotMember { .. } => 404,
                _ => 400,
            };
            let m = e.to_string();
            Err(ApiError { status, message: m })
        },
    }
}

/// Adds a custom domain for the user's namespace; an invalid domain is a
/// 400 and a duplicate a 409, with the store's message.
pub fn add_domain_request(
    domains: &mut DomainStore,
    domain: &str,
    deployment_id: &str,
    namespace: &str,
) -> (res: Result<AddDomainResponse, ApiError>)
    ensures
        match res {
            Ok(r) => r.mapping@.namespace == namespace@ && final(domains)@ == old(domains)@.insert(
                domain_key(domain@),
                r.mapping@,
            ) && !old(domains)@.contains_key(domain_key(domain@)),
            Err(e) => final(domains)@ == old(domains)@ && (e.status == 400 || e.status == 409) && (
            e.status == 409 <==> old(domains)@.contains_key(domain_key(domain@))
                && crate::domains::domain_problem(crate::text::trim(domain_key(domain@))) is None),
        },
{
    match domains.add_domain(domain, deployment_id, namespace) {
        Ok(r) => Ok(r),
        Err(e) => {
            let status: u16 = match &e {
                DomainError::InvalidDomain { .. } => 400,
                DomainError::AlreadyExists { .. } => 409,
                _ => 400,
            };
            let m = e.to_string();
            Err(ApiError { status, message: m })
        },
    }
}

/// Removes a custom domain on behalf of a user: a domain of another
/// namespace is refused (403), an unknown one is a 404.
pub fn remove_domain_request(domains: &mut DomainStore, domain: &str, namespace: &str) -> (res: Result<(), ApiError>)
    ensures
        old(domains)@.contains_key(domain_key(domain@)) && old(domains)@[domain_key(domain@)].namespace
            != namespace@ ==> final(domains)@ == old(domains)@ && (res matches Err(e) && e.status == 403
            && e.message@ == "Not your domain"@),
        old(domains)@.contains_key(domain_key(domain@)) && old(domains)@[domain_key(domain@)].namespace
            == namespace@ ==> res is Ok && final(domains)@ == old(domains)@.remove(domain_key(domain@)),
        !old(domains)@.contains_key(domain_key(domain@)) ==> final(domains)@ == old(domains)@ && (
        res matches Err(e) && e.status == 404 && e.message@ == "domain not found: "@ + domain_key(domain@)),
{
    if let Some(m) = domains.get_domain(domain) {
        if !str_eq(m.namespace.as_str(), namespace) {
            return Err(api_error(403, "Not your domain"));
        }
    }
    match domains.remove_domain(domain) {
        Ok(()) => Ok(()),
        Err(e) => {
            let status: u16 = match &e {
                DomainError::NotFound { .. } => 404,
                _ => 400,
            };
            let m = e.to_string();
            Err(ApiError { status, message: m })
        },
    }
}

/// A deployment as the listing reads it from the state store.
#[derive(Debug)]
pub struct DeploymentRecord {
    pub id: String,
    pub namespace: String,
    pub name: String,
    pub min_instances: u32,
}

/// A deployment as the cloud API lists it.
#[derive(Debug)]
pub struct DeploymentInfo {
    pub id: String,
    pub namespace: String,
    pub name: String,
    pub status: String,
    pub instances: u32,
    pub region: String,
}

/// The deployments of `namespace`, in order.
pub open spec fn of_namespace(records: Seq<DeploymentRecord>, namespace: Seq<char>) -> Seq<DeploymentRecord> {
    records.filter(|r: DeploymentRecord| r.namespace@ == namespace)
}

/// `info` lists `r`: reported running in `iad`, with its minimum instance
/// count.
pub open spec fn lists(info: DeploymentInfo, r: DeploymentRecord) -> bool {
    &&& info.id@ == r.id@
    &&& info.namespace@ == r.namespace@
    &&& info.name@ == r.name@
    &&& info.status@ == "running"@
    &&& info.instances == r.min_instances
    &&& info.region@ == "iad"@
}

/// The deployments a user sees: those of the user's namespace, in order.
pub fn list_user_deployments(records: &Vec<DeploymentRecord>, namespace: &str) -> (res: Vec<DeploymentInfo>)
    ensures
        res@.len() == of_namespace(records@, namespace@).len(),
        forall|i: int|
            0 <= i < res@.len() ==> lists(#[trigger] res@[i], of_namespace(records@, namespace@)[i]),
{
    let mut out: Vec<DeploymentInfo> = Vec::new();
    let ghost pred = |r: DeploymentRecord| r.namespace@ == namespace@;
    let mut i: usize = 0;
    while i < records.len()
        invariant
            i <= records@.len(),
            pred == (|r: DeploymentRecord| r.namespace@ == namespace@),
            out@.len() == records@.take(i as int).filter(pred).len(),
            forall|j: int|
                0 <= j < out@.len() ==> lists(#[trigger] out@[j], records@.take(i as int).filter(pred)[j]),
        decreases records@.len() - i,
    {
        let r = &records[i];
        proof {
            assert(records@.take(i + 1) =~= records@.take(i as int).push(records@[i as int]));
            records@.take(i as int).lemma_filter_push(records@[i as int], pred);
        }
        if str_eq(r.namespace.as_str(), namespace) {
            out.push(
                DeploymentInfo {
                    id: r.id.clone(),
                    namespace: r.namespace.clone(),
                    name: r.name.clone(),
                    status: to_owned_str("running"),
                    instances: r.min_instances,
                    region: to_owned_str("iad"),
                },
            );
        }
        i = i + 1;
    }
    proof {
        assert(records@.take(i as int) =~= records@);
    }
    out
}

/// The answer to a JSON deployment request: the namespace's deployment
/// limit still applies (403); below it, the request is not implemented
/// (501), uploads being the way to deploy.
pub fn create_deployment_request(user: &User, user_deployment_count: u32) -> (res: ApiError)
    ensures
        user_deployment_count >= user.quota.max_deployments ==> res.status == 403 && res.message@
            == limit_text(user_deployment_count, user.quota.max_deployments),
        user_deployment_count < user.quota.max_deployments ==> res.status == 501 && res.message@
            == "JSON deploy not yet implemented \u{2014} use POST /api/v1/cloud/deploy/upload"@,
{
    if user_deployment_count >= user.quota.max_deployments {
        let mut m = String::new();
        push_str(&mut m, "Deployment limit reached (");
        push_dec(&mut m, user_deployment_count as u64);
        push_str(&mut m, "/");
        push_dec(&mut m, user.quota.max_deployments as u64);
        push_str(&mut m, ")");
        proof {
            assert(m@ =~= limit_text(user_deployment_count, user.quota.max_deployments));
        }
        return ApiError { status: 403, message: m };
    }
    api_error(501, "JSON deploy not yet implemented \u{2014} use POST /api/v1/cloud/deploy/upload")
}

} // verus!
