//! Configuration of the Bun compilation pipeline (`bun build`, then
//! `jco componentize`, then WIT validation).

use vstd::prelude::*;
use crate::text::to_owned_str;

verus! {

/// Configuration for the Bun compilation pipeline.
#[derive(Debug)]
pub struct BunPipelineConfig {
    /// Path to the bun binary.
    pub bun_path: String,
    /// Path to the jco binary.
    pub jco_path: String,
    /// Whether to inject WarpGrid polyfills during bundling.
    pub inject_polyfills: bool,
}

impl Default for BunPipelineConfig {
    /// `bun` and `jco` from the PATH, with polyfills.
    fn default() -> (res: Self)
        ensures
            res.bun_path@ == "bun"@,
            res.jco_path@ == "jco"@,
            res.inject_polyfills,
    {
        BunPipelineConfig {
            bun_path: to_owned_str("bun"),
            jco_path: to_owned_str("jco"),
            inject_polyfills: true,
        }
    }
}

/// Checks that both tool paths are set; the error names the empty one,
/// `bun_path` first.
pub fn validate_config(config: &BunPipelineConfig) -> (res: Result<(), String>)
    ensures
        config.bun_path@.len() == 0 ==> (res matches Err(m) && m@ == "bun_path must not be empty"@),
        config.bun_path@.len() > 0 && config.jco_path@.len() == 0 ==> (res matches Err(m) && m@
            == "jco_path must not be empty"@),
        config.bun_path@.len() > 0 && config.jco_path@.len() > 0 ==> res is Ok,
{
    if config.bun_path.as_str().is_empty() {
        return Err(to_owned_str("bun_path must not be empty"));
    }
    if config.jco_path.as_str().is_empty() {
        return Err(to_owned_str("jco_path must not be empty"));
    }
    Ok(())
}

} // verus!
