# mycelium-agent

The decisions of a gossip node, verified with Verus: what it accepts, what it answers, what it
writes, and in what order.

- `src/` is the library. Every function states in its contract what it returns; laws that relate
  several functions are public proof functions.
  - foundations: `text`, `numeral`, `hex`, `b64`, `json`, `order`, `wire`, `keys`, `node_id`
  - durability: `journal`, `mailbox`, `kv_quorum`, `replica_sync`
  - identity: `revocation`, `knowledge_keys`, `membership_ops`, `oidc`
  - governors: `control`, `intent`, `membership_governor`, `opacity`
  - calls: `rpc`, `provider_enforcement`, `mcp`, `llm`, `overlay_consistent`
  - the node: `agent`, `lifecycle`, `config`, `error`
  - the gateway: `http` and the modules under it
- `app/` is ordinary Rust around the library: the running agent (`agent`), its calls and tracked writes
  (`calls`, `quorum`), the gateway's routes (`gateway`, `routes_*`), the loops (`tasks`), the journal's
  file, model and tool servers, and floating point (`governance`). What it needs of the node underneath
  is the trait in `node`.
- `tests/` runs the library with the outside crates linked.

What is believed without proof is marked `external_body`, each with the outside function it calls
and what is claimed of it.
