# smg

The decision-making core of a model gateway, written in Verus: every function
under `src/` is verified against the contract it carries.

- `rate_limit`: per-tenant token and request limits. Policies are validated and
  compiled; requests reserve from buckets and settle from their actual usage.
  Counters are exact fixed-point numbers.
- `grpc`: the pipeline that a request goes through. Requests and responses of
  five engines (`proto`, `proto_wrapper`), the stages that build and execute them
  (`stages`), multimodal inputs from detection to serialization (`multimodal`),
  the encode plan of disaggregated workers (`epd_encode`), the slot pool of the
  RDMA pixel lane (`rdma`) and the scanner for stop sequences (`stop`).
- `cohere`: routing of native Cohere chat requests.
- `observability`: audit records, bucketed gauges, snapshots and the runtime's
  view of itself.
- `passthrough`: the policy that takes the first healthy worker.

Floating-point numbers are carried as their bits. Time, and what files and the
network hold, are handed in by the caller.

`outside.rs`, `dash.rs` and `observability/registry.rs` hold the calls into other
crates. Their contracts are believed, not proved; each says what it claims.

`app/` is ordinary Rust around the library: clocks, environment, files, network
and background tasks. `tests/` exercises the library from outside.
