# warpgrid

The decision logic of WarpGrid, a WebAssembly cluster orchestrator, as a
library verified with Verus.

- `src/` — the library. Every executable function has a `requires` /
  `ensures` contract that Verus proves: tenant quotas, team roles, custom
  domains, API keys and agent tokens, billing plans and usage metering,
  header maps and chunked bodies, autoscaling decisions, cluster
  membership and the join protocol, sprite lifecycles, the dashboard's
  views and the pages of the console and the admin dashboard. Public
  `law_*` proof functions state properties that span several functions.
- `tests/` — tests of the library on concrete values.
- `app/` — the command-line entry point, configuration files, file
  storage, streaming adapters and the floating-point figures (percentages,
  rates), which stay outside the verified library.

Generating the cluster's certificates (a self-signed CA and node
certificates signed by it) needs the `rcgen` crate and `std::net` for the
node's IP address; neither is available to the library, so only the
`CertKeyPair` they produce is defined here, in `cluster`.
