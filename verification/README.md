# unixd

A per-user, socket-activated daemon runtime and a bounded on-disk response
cache, with the rules that decide what they do written in Verus and proved.

- `src/` is the library. It holds the decisions: cache keys and their
  digests, freshness horizons and which upstream failures may serve stale,
  what a read of a stored entry gives, when a write prunes and which entries
  a prune removes, the frames of the protocol and what a server answers,
  when the accept loop drains, when a secret expires, what the systemd units
  and the launchd agent say, and how a config is read over defaults. Each
  public function states its result in `ensures`; `src/laws.rs` states what
  holds across functions.
- `app/` carries those decisions out: files and locks under the cache root,
  the sockets, the accept loop on Tokio, the service manager, and the serde
  forms of the library's types.
- `tests/` runs the library on concrete values.
