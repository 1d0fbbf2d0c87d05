//! Start-up decisions of the daemon: which edge regions the cloud
//! provisions, where the agent's metadata database lives, and the records
//! an agent files for the deployments it loads.

use vstd::prelude::*;
use crate::dashboard::{HealthStatus, InstanceState, InstanceStatus};
use crate::strmap::StrMap;
use crate::text::{chars_of, dec, push_dec, push_str, string_of, to_owned_str, trim, trim_str};

verus! {

/// The comma-separated fields of `s`, in order; a string without commas is
/// one field, and the empty string is one empty field.
pub open spec fn fields(s: Seq<char>) -> Seq<Seq<char>>
    decreases s.len(),
{
    if s.len() == 0 {
        seq![Seq::<char>::empty()]
    } else if s.last() == ',' {
        fields(s.drop_last()).push(Seq::empty())
    } else {
        let f = fields(s.drop_last());
        f.update(f.len() - 1, f.last().push(s.last()))
    }
}

proof fn lemma_fields_nonempty(s: Seq<char>)
    ensures
        fields(s).len() >= 1,
    decreases s.len(),
{
    if s.len() > 0 {
        lemma_fields_nonempty(s.drop_last());
    }
}

/// The edge regions of a comma-separated list: each field trimmed of white
/// space, the empty ones left out.
pub open spec fn region_list(s: Seq<char>) -> Seq<Seq<char>> {
    fields(s).map_values(|f: Seq<char>| trim(f)).filter(|f: Seq<char>| f.len() > 0)
}

/// Parses the configured edge regions, such as `"iad, ams,sin"`.
pub fn parse_regions(edge_regions: &str) -> (res: Vec<String>)
    ensures
        res@.map_values(|r: String| r@) == region_list(edge_regions@),
{
    let cs = chars_of(edge_regions);
    let ghost s = cs@;
    let ghost tr = |f: Seq<char>| trim(f);
    let ghost ne = |f: Seq<char>| f.len() > 0;
    let mut out: Vec<String> = Vec::new();
    let mut start: usize = 0;
    let mut i: usize = 0;
    proof {
        lemma_fields_nonempty(s.take(0));
        assert(s.take(0) =~= Seq::<char>::empty());
    }
    while i < cs.len()
        invariant
            s == cs@,
            s == edge_regions@,
            tr == (|f: Seq<char>| trim(f)),
            ne == (|f: Seq<char>| f.len() > 0),
            start <= i <= cs@.len(),
            fields(s.take(i as int)).len() >= 1,
            fields(s.take(i as int)).last() == s.subrange(start as int, i as int),
            out@.map_values(|r: String| r@) == fields(s.take(i as int)).drop_last().map_values(tr).filter(ne),
        decreases cs@.len() - i,
    {
        let ghost prev = fields(s.take(i as int));
        proof {
            assert(s.take(i + 1).drop_last() =~= s.take(i as int));
            assert(s.take(i + 1).last() == s[i as int]);
        }
        if cs[i] == ',' {
            let field = string_of(&cs, start, i);
            let t = trim_str(field.as_str());
            let ghost before = out@;
            proof {
                assert(fields(s.take(i + 1)) == prev.push(Seq::<char>::empty()));
                assert(fields(s.take(i + 1)).drop_last() =~= prev);
                assert(prev =~= prev.drop_last().push(prev.last()));
                assert(prev.map_values(tr) =~= prev.drop_last().map_values(tr).push(trim(prev.last())));
                prev.drop_last().map_values(tr).lemma_filter_push(trim(prev.last()), ne);
            }
            if !t.as_str().is_empty() {
                out.push(t);
                proof {
                    assert(out@.map_values(|r: String| r@) =~= before.map_values(|r: String| r@).push(
                        trim(prev.last()),
                    ));
                }
            }
            start = i + 1;
            proof {
                assert(s.subrange(start as int, i + 1) =~= Seq::<char>::empty());
            }
        } else {
            proof {
                assert(fields(s.take(i + 1)) == prev.update(prev.len() - 1, prev.last().push(s[i as int])));
                assert(fields(s.take(i + 1)).drop_last() =~= prev.drop_last());
                assert(s.subrange(start as int, i + 1) =~= prev.last().push(s[i as int]));
            }
        }
        i = i + 1;
    }
    let field = string_of(&cs, start, i);
    let t = trim_str(field.as_str());
    let ghost before = out@;
    let ghost all = fields(s.take(i as int));
    proof {
        assert(s.take(i as int) =~= s);
        assert(all =~= all.drop_last().push(all.last()));
        assert(all.map_values(tr) =~= all.drop_last().map_values(tr).push(trim(all.last())));
        all.drop_last().map_values(tr).lemma_filter_push(trim(all.last()), ne);
    }
    if !t.as_str().is_empty() {
        out.push(t);
        proof {
            assert(out@.map_values(|r: String| r@) =~= before.map_values(|r: String| r@).push(
                trim(all.last()),
            ));
        }
    }
    proof {
        assert(region_list(edge_regions@) == all.map_values(tr).filter(ne));
    }
    out
}

/// The control plane's address for edge machines provisioned from a
/// local cloud: `http://localhost:{port}`.
pub fn local_control_plane_url(api_port: u16) -> (res: String)
    ensures
        res@ == "http://localhost:"@ + dec(api_port as nat),
{
    let mut s = String::new();
    push_str(&mut s, "http://localhost:");
    push_dec(&mut s, api_port as u64);
    s
}

/// Where an agent keeps its copy of the cloud's metadata.
#[derive(Debug)]
pub enum CloudDbChoice {
    /// An embedded replica of the Turso database at `url`.
    Replica { url: String, auth_token: String },
    /// A database on local disk only.
    Local,
}

/// The agent's metadata database: a replica when a Turso URL and token are
/// given, local-only without a URL; a URL without a token is an error.
pub fn choose_cloud_db(turso_url: Option<&str>, turso_auth_token: Option<&str>) -> (res: Result<CloudDbChoice, String>)
    ensures
        (turso_url is Some && turso_auth_token is Some) ==> (res matches Ok(CloudDbChoice::Replica { url, auth_token })
            && url@ == turso_url.unwrap()@ && auth_token@ == turso_auth_token.unwrap()@),
        (turso_url is Some && turso_auth_token is None) ==> (res matches Err(m) && m@
            == "TURSO_DATABASE_URL is set but TURSO_AUTH_TOKEN is missing"@),
        turso_url is None ==> (res matches Ok(CloudDbChoice::Local)),
{
    match (turso_url, turso_auth_token) {
        (Some(url), Some(token)) => Ok(
            CloudDbChoice::Replica { url: to_owned_str(url), auth_token: to_owned_str(token) },
        ),
        (Some(_), None) => Err(to_owned_str("TURSO_DATABASE_URL is set but TURSO_AUTH_TOKEN is missing")),
        _ => Ok(CloudDbChoice::Local),
    }
}

/// The labels an agent joins with: its region.
pub fn agent_labels(region: &str) -> (res: StrMap<String>)
    ensures
        res.wf(),
        res@.dom() == set!["region"@],
        res@["region"@]@ == region@,
{
    let mut labels = StrMap::new();
    labels.insert(to_owned_str("region"), to_owned_str(region));
    proof {
        assert(labels@.dom() =~= set!["region"@]);
    }
    labels
}

/// The record an agent files for a deployment it loaded at time `now`: one
/// running, healthy instance `{deployment}-0` on the region's node, sized
/// by its Wasm binary.
pub fn agent_instance_record(deployment_id: &str, wasm_len: u64, region: &str, now: u64) -> (res: InstanceState)
    ensures
        res.id@ == deployment_id@ + "-0"@,
        res.deployment_id@ == deployment_id@,
        res.node_id@ == region@,
        res.status == InstanceStatus::Running,
        res.health == HealthStatus::Healthy,
        res.restart_count == 0,
        res.memory_bytes == wasm_len,
        res.started_at == now,
        res.updated_at == now,
{
    let mut id = String::new();
    push_str(&mut id, deployment_id);
    push_str(&mut id, "-0");
    InstanceState {
        id,
        deployment_id: to_owned_str(deployment_id),
        node_id: to_owned_str(region),
        status: InstanceStatus::Running,
        health: HealthStatus::Healthy,
        restart_count: 0,
        memory_bytes: wasm_len,
        started_at: now,
        updated_at: now,
    }
}

} // verus!
