//! Where the daemon looks for its configuration file, and how settings from
//! the command line, the environment and the file are merged.
//!
//! The file is searched in order: an explicit `--config` path, then
//! `./warpgrid.toml`, then `warpgrid.toml` in the data directory, then
//! `/etc/warpgrid/warpgrid.toml`.

use vstd::prelude::*;
use vstd::std_specs::cmp::PartialEqSpec;
use crate::text::{join, join_path, to_owned_str};

verus! {

/// The daemon's configuration file.
#[derive(Debug)]
pub struct WarpGridConfig {
    pub cloud: CloudConfig,
}

/// The `[cloud]` section.
#[derive(Debug)]
pub struct CloudConfig {
    pub api_port: Option<u16>,
    pub data_dir: Option<String>,
    pub edge_regions: Option<String>,
    pub metrics_interval: Option<u64>,
    pub turso: TursoConfig,
    pub fly: FlyConfig,
    pub registry: RegistryConfig,
    pub posthog: PosthogConfig,
    pub stripe: StripeConfig,
}

/// The `[cloud.turso]` section: the database.
#[derive(Debug)]
pub struct TursoConfig {
    pub url: Option<String>,
    pub auth_token: Option<String>,
}

/// The `[cloud.fly]` section: the edge machines' provider.
#[derive(Debug)]
pub struct FlyConfig {
    pub api_token: Option<String>,
}

/// The `[cloud.registry]` section: where components are stored.
#[derive(Debug)]
pub struct RegistryConfig {
    pub bucket: Option<String>,
}

/// The `[cloud.posthog]` section: product analytics.
#[derive(Debug)]
pub struct PosthogConfig {
    pub api_key: Option<String>,
}

/// The `[cloud.stripe]` section: billing.
#[derive(Debug)]
pub struct StripeConfig {
    pub secret_key: Option<String>,
    pub webhook_secret: Option<String>,
}

/// A configuration with nothing set.
pub open spec fn empty_config() -> WarpGridConfig {
    WarpGridConfig {
        cloud: CloudConfig {
            api_port: None,
            data_dir: None,
            edge_regions: None,
            metrics_interval: None,
            turso: TursoConfig { url: None, auth_token: None },
            fly: FlyConfig { api_token: None },
            registry: RegistryConfig { bucket: None },
            posthog: PosthogConfig { api_key: None },
            stripe: StripeConfig { secret_key: None, webhook_secret: None },
        },
    }
}

impl Default for WarpGridConfig {
    /// Nothing set: every setting comes from the command line, the
    /// environment or the built-in defaults.
    fn default() -> (res: Self)
        ensures
            res == empty_config(),
    {
        WarpGridConfig {
            cloud: CloudConfig {
                api_port: None,
                data_dir: None,
                edge_regions: None,
                metrics_interval: None,
                turso: TursoConfig { url: None, auth_token: None },
                fly: FlyConfig { api_token: None },
                registry: RegistryConfig { bucket: None },
                posthog: PosthogConfig { api_key: None },
                stripe: StripeConfig { secret_key: None, webhook_secret: None },
            },
        }
    }
}

/// The first configuration in `loaded` (one entry per candidate file, in
/// order: `None` where the file is missing, unreadable or not valid), or
/// nothing set when there is none.
pub open spec fn first_config(loaded: Seq<Option<WarpGridConfig>>) -> WarpGridConfig
    decreases loaded.len(),
{
    if loaded.len() == 0 {
        empty_config()
    } else {
        match loaded[0] {
            Some(c) => c,
            None => first_config(loaded.drop_first()),
        }
    }
}

/// Picks the configuration of the first candidate file that could be read
/// and parsed; when none could, nothing is set (no file is not an error).
pub fn first_loaded(loaded: Vec<Option<WarpGridConfig>>) -> (res: WarpGridConfig)
    ensures
        res == first_config(loaded@),
    decreases loaded@.len(),
{
    let mut loaded = loaded;
    if loaded.len() == 0 {
        return WarpGridConfig::default();
    }
    let ghost whole = loaded@;
    let head = loaded.remove(0);
    proof {
        assert(loaded@ =~= whole.drop_first());
    }
    match head {
        Some(c) => c,
        None => first_loaded(loaded),
    }
}

/// The candidate configuration files, in the order they are tried.
pub open spec fn candidates(explicit: Option<Seq<char>>, data_dir: Option<Seq<char>>) -> Seq<Seq<char>> {
    let first: Seq<Seq<char>> = match explicit {
        Some(p) => seq![p],
        None => Seq::empty(),
    };
    let dir: Seq<Seq<char>> = match data_dir {
        Some(d) => seq![join_path(d, "warpgrid.toml"@)],
        None => Seq::empty(),
    };
    first + seq!["warpgrid.toml"@] + dir + seq!["/etc/warpgrid/warpgrid.toml"@]
}

/// The ordered list of configuration file candidates.
pub fn config_candidates(explicit: Option<&str>, data_dir: Option<&str>) -> (res: Vec<String>)
    ensures
        res@.map_values(|p: String| p@) == candidates(
            match explicit {
                Some(p) => Some(p@),
                None => None,
            },
            match data_dir {
                Some(d) => Some(d@),
                None => None,
            },
        ),
{
    let mut paths: Vec<String> = Vec::new();
    if let Some(p) = explicit {
        paths.push(to_owned_str(p));
    }
    paths.push(to_owned_str("warpgrid.toml"));
    if let Some(d) = data_dir {
        paths.push(join(d, "warpgrid.toml"));
    }
    paths.push(to_owned_str("/etc/warpgrid/warpgrid.toml"));
    proof {
        assert(paths@.map_values(|p: String| p@) =~= candidates(
            match explicit {
                Some(p) => Some(p@),
                None => None,
            },
            match data_dir {
                Some(d) => Some(d@),
                None => None,
            },
        ));
    }
    paths
}

/// Merge of a command-line value with a configured one: the command line
/// wins when given.
pub fn merge_option<T>(cli: Option<T>, config: Option<T>) -> (res: Option<T>)
    ensures
        res == (match cli {
            Some(v) => Some(v),
            None => config,
        }),
{
    match cli {
        Some(v) => Some(v),
        None => config,
    }
}

/// Merge with a default: a command-line value that differs from the default
/// wins; when it equals the default, a configured value wins if present.
pub fn merge_with_default<T: PartialEq>(cli: T, config: Option<T>, default: T) -> (res: T)
    ensures
        config is None ==> res == cli,
        config is Some ==> res == cli || res == config.unwrap(),
        config is Some && T::obeys_eq_spec() ==> res == (if cli.eq_spec(&default) {
            config.unwrap()
        } else {
            cli
        }),
{
    match config {
        Some(c) => {
            if cli == default {
                c
            } else {
                cli
            }
        },
        None => cli,
    }
}

/// For the integer settings (ports and intervals), `==` is integer
/// equality, so `merge_with_default`'s contract fixes its result: the
/// configured value wins exactly when the command-line value equals its
/// default, e.g. (8443, Some(9443), 8443) gives 9443 and (3000, Some(9443),
/// 8443) gives 3000.
pub proof fn law_merge_with_default_integers(port: u16, default_port: u16, secs: u64, default_secs: u64)
    ensures
        u16::obeys_eq_spec(),
        port.eq_spec(&default_port) == (port == default_port),
        u64::obeys_eq_spec(),
        secs.eq_spec(&default_secs) == (secs == default_secs),
{
}

} // verus!
