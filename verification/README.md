# subway

A JSON-RPC gateway for Substrate and Ethereum nodes: it forwards calls and
subscriptions to upstream endpoints, with caching, rate limits, health checks and
endpoint rotation.

- `src/` is the library, verified with Verus: the configuration model and its
  checks, the merging of RPC definitions over a base, the `${env.NAME}` templating
  of config files, the connection state machine and health score of an endpoint,
  endpoint rotation and retry decisions, rate-limit quotas and method weights, the
  server's CORS, batch and proxy policies, and the head-following decisions of the
  Substrate API. Calls into `serde_json`, `http` and `governor` go through small
  trusted wrappers whose contracts are stated next to them.
- `app/` is the program around it: command line, file reading, logging, telemetry
  exporters, the tokio tasks that drive the endpoint machines, and the jsonrpsee
  server and its tower middlewares.
- `tests/` exercises the library on concrete values.
