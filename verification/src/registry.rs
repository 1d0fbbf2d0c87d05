//! Content-addressed layout of the Wasm component registry.
//!
//! A component is stored as `{base}/{namespace}/{deployment}/{sha256}.wasm`.
//! This module computes the hash and the paths; reading and writing the
//! files is left to the caller.

use vstd::prelude::*;
use crate::sys::{sha256, sha256_digest};
use crate::text::{concat, hex_bytes, hex_encode, join, join_path, lemma_hex_bytes_len, to_owned_str};

verus! {

/// Registry rooted at a local directory.
pub struct WasmRegistry {
    base_dir: String,
}

/// A stored Wasm component with its metadata.
#[derive(Debug)]
pub struct StoredComponent {
    pub hash: String,
    pub path: String,
    pub size_bytes: u64,
}

/// Hex of the SHA-256 of the component's bytes.
pub open spec fn component_hash(data: Seq<u8>) -> Seq<char> {
    hex_bytes(sha256_digest(data))
}

/// SHA-256 content hash of bytes, in lower-case hex.
pub fn content_hash(data: &[u8]) -> (res: String)
    ensures
        res@ == component_hash(data@),
        res@.len() == 64,
{
    let d = sha256(data);
    proof {
        lemma_hex_bytes_len(d@);
    }
    hex_encode(d.as_slice())
}

impl WasmRegistry {
    /// The registry's root directory.
    pub closed spec fn base(&self) -> Seq<char> {
        self.base_dir@
    }

    /// The directory of a deployment's components.
    pub open spec fn dir_of(&self, namespace: Seq<char>, name: Seq<char>) -> Seq<char> {
        join_path(join_path(self.base(), namespace), name)
    }

    /// A registry backed by a local directory.
    pub fn local(base_dir: &str) -> (res: Self)
        ensures
            res.base() == base_dir@,
    {
        WasmRegistry { base_dir: to_owned_str(base_dir) }
    }

    /// The directory holding the components of a deployment.
    pub fn deployment_dir(&self, namespace: &str, deployment_name: &str) -> (res: String)
        ensures
            res@ == self.dir_of(namespace@, deployment_name@),
    {
        let d = join(self.base_dir.as_str(), namespace);
        join(d.as_str(), deployment_name)
    }

    /// The file of a component: `<hash>.wasm` in the deployment's directory.
    pub fn component_path(&self, namespace: &str, deployment_name: &str, hash: &str) -> (res: String)
        ensures
            res@ == join_path(self.dir_of(namespace@, deployment_name@), hash@ + ".wasm"@),
    {
        let d = self.deployment_dir(namespace, deployment_name);
        let f = concat(hash, ".wasm");
        join(d.as_str(), f.as_str())
    }

    /// Where and under which hash a component is to be stored.
    pub fn locate(&self, namespace: &str, deployment_name: &str, wasm_bytes: &[u8]) -> (res:
        StoredComponent)
        requires
            wasm_bytes@.len() <= u64::MAX,
        ensures
            res.hash@ == component_hash(wasm_bytes@),
            res.path@ == join_path(
                self.dir_of(namespace@, deployment_name@),
                component_hash(wasm_bytes@) + ".wasm"@,
            ),
            res.size_bytes == wasm_bytes@.len(),
    {
        let hash = content_hash(wasm_bytes);
        let path = self.component_path(namespace, deployment_name, hash.as_str());
        StoredComponent { hash, path, size_bytes: wasm_bytes.len() as u64 }
    }
}

} // verus!
