//! Edge machines on Fly: the requests that create, start, stop, delete and
//! list `warpd agent` machines, and which regions still need one.
//!
//! The requests are built here; sending them over HTTP is left to the
//! caller.

use vstd::prelude::*;
use crate::strmap::StrMap;
use crate::text::{concat, push_str, str_eq, to_owned_str};

verus! {

/// The Fly Machines API.
pub const FLY_API_BASE: &'static str = "https://api.machines.dev/v1";

/// Fly Machines client configuration.
pub struct FlyProvisioner {
    api_token: String,
    app_name: String,
    edge_image: String,
}

/// Configuration of a new edge machine.
pub struct EdgeMachineConfig {
    pub region: String,
    pub cpus: u32,
    pub memory_mb: u32,
    pub cpu_kind: String,
    pub control_plane_url: String,
    pub env: StrMap<String>,
}

impl Default for EdgeMachineConfig {
    /// One shared CPU and 256 MB in `iad`, no control plane, no extra
    /// environment.
    fn default() -> (res: Self)
        ensures
            res.region@ == "iad"@,
            res.cpus == 1,
            res.memory_mb == 256,
            res.cpu_kind@ == "shared"@,
            res.control_plane_url@.len() == 0,
            res.env.wf(),
            res.env@ == Map::<Seq<char>, String>::empty(),
    {
        EdgeMachineConfig {
            region: to_owned_str("iad"),
            cpus: 1,
            memory_mb: 256,
            cpu_kind: to_owned_str("shared"),
            control_plane_url: String::new(),
            env: StrMap::new(),
        }
    }
}

/// A provisioned Fly machine.
#[derive(Debug)]
pub struct ProvisionedMachine {
    pub id: String,
    pub name: String,
    pub region: String,
    pub state: String,
    pub instance_id: String,
    pub private_ip: String,
}

/// The regions of the existing machines, in order.
pub fn machine_regions(machines: &Vec<ProvisionedMachine>) -> (res: Vec<String>)
    ensures
        res@.map_values(|r: String| r@) == machines@.map_values(|m: ProvisionedMachine| m.region@),
{
    let mut out: Vec<String> = Vec::new();
    let mut i: usize = 0;
    while i < machines.len()
        invariant
            i <= machines@.len(),
            out@.map_values(|r: String| r@) == machines@.take(i as int).map_values(
                |m: ProvisionedMachine| m.region@,
            ),
        decreases machines@.len() - i,
    {
        let ghost before = out@;
        out.push(machines[i].region.clone());
        proof {
            assert(machines@.take(i + 1) =~= machines@.take(i as int).push(machines@[i as int]));
            assert(out@.map_values(|r: String| r@) =~= before.map_values(|r: String| r@).push(
                machines@[i as int].region@,
            ));
            assert(machines@.take(i + 1).map_values(|m: ProvisionedMachine| m.region@)
                =~= machines@.take(i as int).map_values(|m: ProvisionedMachine| m.region@).push(
                machines@[i as int].region@,
            ));
        }
        i = i + 1;
    }
    proof {
        assert(machines@.take(i as int) =~= machines@);
    }
    out
}

/// A port of the machine's service and its handlers.
pub struct PortConfig {
    pub port: u16,
    pub handlers: Vec<String>,
}

/// The machine's service.
pub struct ServiceConfig {
    pub protocol: String,
    pub internal_port: u16,
    pub ports: Vec<PortConfig>,
}

/// The machine's size.
pub struct GuestConfig {
    pub cpus: u32,
    pub memory_mb: u32,
    pub cpu_kind: String,
}

/// The machine's configuration.
pub struct MachineConfig {
    pub image: String,
    pub guest: GuestConfig,
    pub env: StrMap<String>,
    pub services: Vec<ServiceConfig>,
}

/// The body of a machine creation request.
pub struct CreateMachineRequest {
    pub name: String,
    pub region: String,
    pub config: MachineConfig,
}

fn tag(s: &str) -> (res: String)
    ensures
        res@ == s@,
{
    to_owned_str(s)
}

impl FlyProvisioner {
    /// The API token.
    pub closed spec fn token(&self) -> Seq<char> {
        self.api_token@
    }

    /// The Fly app.
    pub closed spec fn app(&self) -> Seq<char> {
        self.app_name@
    }

    /// The image of edge machines.
    pub closed spec fn image(&self) -> Seq<char> {
        self.edge_image@
    }

    /// A client for the app `app_name`, creating machines from `edge_image`.
    pub fn new(api_token: &str, app_name: &str, edge_image: &str) -> (res: Self)
        ensures
            res.token() == api_token@,
            res.app() == app_name@,
            res.image() == edge_image@,
    {
        FlyProvisioner {
            api_token: to_owned_str(api_token),
            app_name: to_owned_str(app_name),
            edge_image: to_owned_str(edge_image),
        }
    }

    /// The `Authorization` header value: `Bearer <token>`.
    pub fn auth_header(&self) -> (res: String)
        ensures
            res@ == "Bearer "@ + self.token(),
    {
        concat("Bearer ", self.api_token.as_str())
    }

    /// The machines collection of the app: `{base}/apps/{app}/machines`.
    pub fn machines_url(&self) -> (res: String)
        ensures
            res@ == FLY_API_BASE@ + "/apps/"@ + self.app() + "/machines"@,
    {
        let mut s = String::new();
        push_str(&mut s, FLY_API_BASE);
        push_str(&mut s, "/apps/");
        push_str(&mut s, self.app_name.as_str());
        push_str(&mut s, "/machines");
        proof {
            assert(s@ =~= FLY_API_BASE@ + "/apps/"@ + self.app() + "/machines"@);
        }
        s
    }

    /// A machine's URL, `{machines}/{id}`.
    pub fn machine_url(&self, machine_id: &str) -> (res: String)
        ensures
            res@ == FLY_API_BASE@ + "/apps/"@ + self.app() + "/machines"@ + "/"@ + machine_id@,
    {
        let mut s = self.machines_url();
        push_str(&mut s, "/");
        push_str(&mut s, machine_id);
        s
    }

    /// The URL that starts or stops a machine: `{machine}/{action}`.
    pub fn machine_action_url(&self, machine_id: &str, action: &str) -> (res: String)
        ensures
            res@ == FLY_API_BASE@ + "/apps/"@ + self.app() + "/machines"@ + "/"@ + machine_id@ + "/"@
                + action@,
    {
        let mut s = self.machine_url(machine_id);
        push_str(&mut s, "/");
        push_str(&mut s, action);
        s
    }

    /// The URL that deletes a machine, with `?force=true` when forced.
    pub fn delete_url(&self, machine_id: &str, force: bool) -> (res: String)
        ensures
            res@ == FLY_API_BASE@ + "/apps/"@ + self.app() + "/machines"@ + "/"@ + machine_id@ + (if force {
                "?force=true"@
            } else {
                ""@
            }),
    {
        let mut s = self.machine_url(machine_id);
        if force {
            push_str(&mut s, "?force=true");
        } else {
            push_str(&mut s, "");
        }
        s
    }

    /// The request that creates an edge machine: named
    /// `warpgrid-edge-{region}`, from the edge image, with the configured
    /// size, the configured environment plus `WARPGRID_CONTROL_PLANE`,
    /// `WARPGRID_REGION` and `RUST_LOG`, and one TCP service on port 8443
    /// exposed as 443 (TLS and HTTP) and 80 (HTTP).
    pub fn create_machine_request(&self, config: &EdgeMachineConfig) -> (res: CreateMachineRequest)
        requires
            config.env.wf(),
        ensures
            res.name@ == "warpgrid-edge-"@ + config.region@,
            res.region@ == config.region@,
            res.config.image@ == self.image(),
            res.config.guest.cpus == config.cpus,
            res.config.guest.memory_mb == config.memory_mb,
            res.config.guest.cpu_kind@ == config.cpu_kind@,
            res.config.env.wf(),
            res.config.env@ == config.env@.insert("WARPGRID_CONTROL_PLANE"@, res.config.env@["WARPGRID_CONTROL_PLANE"@])
                .insert("WARPGRID_REGION"@, res.config.env@["WARPGRID_REGION"@])
                .insert("RUST_LOG"@, res.config.env@["RUST_LOG"@]),
            res.config.env@["WARPGRID_CONTROL_PLANE"@]@ == config.control_plane_url@,
            res.config.env@["WARPGRID_REGION"@]@ == config.region@,
            res.config.env@["RUST_LOG"@]@ == "info,warpd=debug"@,
            res.config.services@.len() == 1,
            res.config.services@[0].protocol@ == "tcp"@,
            res.config.services@[0].internal_port == 8443,
            res.config.services@[0].ports@.len() == 2,
            res.config.services@[0].ports@[0].port == 443,
            res.config.services@[0].ports@[0].handlers@.map_values(|h: String| h@) == seq!["tls"@, "http"@],
            res.config.services@[0].ports@[1].port == 80,
            res.config.services@[0].ports@[1].handlers@.map_values(|h: String| h@) == seq!["http"@],
    {
        let name = concat("warpgrid-edge-", config.region.as_str());
        let mut env = config.env.clone_strings();
        env.insert(tag("WARPGRID_CONTROL_PLANE"), config.control_plane_url.clone());
        let ghost e1 = env@;
        env.insert(tag("WARPGRID_REGION"), config.region.clone());
        let ghost e2 = env@;
        env.insert(tag("RUST_LOG"), tag("info,warpd=debug"));
        let mut tls_http: Vec<String> = Vec::new();
        tls_http.push(tag("tls"));
        tls_http.push(tag("http"));
        let mut http: Vec<String> = Vec::new();
        http.push(tag("http"));
        let mut ports: Vec<PortConfig> = Vec::new();
        ports.push(PortConfig { port: 443, handlers: tls_http });
        ports.push(PortConfig { port: 80, handlers: http });
        let mut services: Vec<ServiceConfig> = Vec::new();
        services.push(ServiceConfig { protocol: tag("tcp"), internal_port: 8443, ports });
        let res = CreateMachineRequest {
            name,
            region: config.region.clone(),
            config: MachineConfig {
                image: self.edge_image.clone(),
                guest: GuestConfig {
                    cpus: config.cpus,
                    memory_mb: config.memory_mb,
                    cpu_kind: config.cpu_kind.clone(),
                },
                env,
                services,
            },
        };
        proof {
            reveal_strlit("WARPGRID_CONTROL_PLANE");
            reveal_strlit("WARPGRID_REGION");
            reveal_strlit("RUST_LOG");
            assert("WARPGRID_CONTROL_PLANE"@.len() == 22);
            assert("WARPGRID_REGION"@.len() == 15);
            assert("RUST_LOG"@.len() == 8);
            assert(e1["WARPGRID_CONTROL_PLANE"@]@ == config.control_plane_url@);
            assert(e2["WARPGRID_REGION"@]@ == config.region@);
            assert(e2["WARPGRID_CONTROL_PLANE"@] == e1["WARPGRID_CONTROL_PLANE"@]);
            assert(res.config.services@[0].ports@[0].handlers@.map_values(|h: String| h@) =~= seq!["tls"@, "http"@]);
            assert(res.config.services@[0].ports@[1].handlers@.map_values(|h: String| h@) =~= seq!["http"@]);
            assert(res.config.env@ =~= config.env@.insert("WARPGRID_CONTROL_PLANE"@, res.config.env@["WARPGRID_CONTROL_PLANE"@])
                .insert("WARPGRID_REGION"@, res.config.env@["WARPGRID_REGION"@])
                .insert("RUST_LOG"@, res.config.env@["RUST_LOG"@]));
        }
        res
    }
}

/// The regions that still need an edge machine: those of `regions` without
/// one among `existing`, in order.
pub fn regions_to_provision(regions: &Vec<String>, existing: &Vec<String>) -> (res: Vec<String>)
    ensures
        res@.map_values(|r: String| r@) == regions@.map_values(|r: String| r@).filter(
            |r: Seq<char>| !existing@.map_values(|e: String| e@).contains(r),
        ),
{
    let ghost ex = existing@.map_values(|e: String| e@);
    let ghost rs = regions@.map_values(|r: String| r@);
    let ghost pred = |r: Seq<char>| !ex.contains(r);
    let mut out: Vec<String> = Vec::new();
    let mut i: usize = 0;
    while i < regions.len()
        invariant
            i <= regions@.len(),
            ex == existing@.map_values(|e: String| e@),
            rs == regions@.map_values(|r: String| r@),
            pred == (|r: Seq<char>| !ex.contains(r)),
            out@.map_values(|r: String| r@) == rs.take(i as int).filter(pred),
        decreases regions@.len() - i,
    {
        let r = &regions[i];
        let mut found = false;
        let mut j: usize = 0;
        while j < existing.len()
            invariant
                j <= existing@.len(),
                ex == existing@.map_values(|e: String| e@),
                found == exists|k: int| 0 <= k < j && ex[k] == r@,
            decreases existing@.len() - j,
        {
            if str_eq(existing[j].as_str(), r.as_str()) {
                found = true;
            }
            proof {
                if !found {
                    assert(!(exists|k: int| 0 <= k < j + 1 && ex[k] == r@)) by {
                        if exists|k: int| 0 <= k < j + 1 && ex[k] == r@ {
                            let k = choose|k: int| 0 <= k < j + 1 && ex[k] == r@;
                            if k == j {
                                assert(ex[j as int] == existing@[j as int]@);
                            }
                        }
                    }
                } else {
                    if !(exists|k: int| 0 <= k < j && ex[k] == r@) {
                        assert(ex[j as int] == existing@[j as int]@);
                        assert(ex[j as int] == r@);
                    }
                }
            }
            j = j + 1;
        }
        proof {
            assert(found == ex.contains(r@));
            assert(rs.take(i + 1) =~= rs.take(i as int).push(rs[i as int]));
            rs.take(i as int).lemma_filter_push(rs[i as int], pred);
            assert(rs[i as int] == r@);
        }
        if !found {
            let ghost before = out@;
            out.push(r.clone());
            proof {
                assert(out@.map_values(|r: String| r@) =~= before.map_values(|r: String| r@).push(r@));
            }
        }
        i = i + 1;
    }
    proof {
        assert(rs.take(i as int) =~= rs);
    }
    out
}

/// The message of a failed Fly request: the API's `error`, else its
/// `message`, else nothing.
pub fn fly_error_detail(error: Option<String>, message: Option<String>) -> (res: String)
    ensures
        res@ == match error {
            Some(e) => e@,
            None => match message {
                Some(m) => m@,
                None => Seq::<char>::empty(),
            },
        },
{
    match error {
        Some(e) => e,
        None => match message {
            Some(m) => m,
            None => String::new(),
        },
    }
}

} // verus!
