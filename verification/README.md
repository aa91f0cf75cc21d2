# mcp-cache-ci

The decisions of a caching MCP proxy that stands in front of an HTTP MCP server, verified
with Verus.

- `src/base_url.rs`: the backend's base URL, and the URLs of requests that are passed on.
- `src/headers.rs`, `src/method.rs`, `src/response.rs`: which header fields and methods pass
  through, and the response that a reply becomes.
- `src/fallback.rs`: the handling of one request that is passed on, step by step.
- `src/eviction.rs`: the background sweeps, step by step.
- `src/policy.rs`: where the caching policy comes from.
- `src/startup.rs`: what the proxy is started with.
- `src/text.rs`: the text operations that these rest on.

`app/` is the program around the library: it reads, sends, waits and logs. It is built in the
workspace of the `cache_core` crate, which holds the cache itself, together with the modules
`handlers` (the service endpoints) and `pidlock` (the PID file) of that workspace.
