# linura

The domain core of Linura, an intent-driven system layer for Linux, written
in Verus: executable Rust whose behaviour is stated in `requires`/`ensures`
contracts and proved.

- `src/` — the verified library: identifiers and semantic reasons, intents,
  capability blueprints and their resolution, compilation of intents into
  desired state, deterministic non-executable plans, policy and approval
  decisions, observations and the system graph, plan previews and reviews,
  the wire forms of the public protocol, the managed-request identity, and
  the decisions of a managed convergence as a step function from state and
  outcome to next state and work (`src/converge.rs`), the record
  integrity key with its HMAC-SHA256 tags (`src/integrity.rs`), and the
  canonical encoding of the store's schema objects (`src/schema.rs`).
  Laws that relate several operations stand as public proof functions named
  `law_*`.
- `tests/` — executable tests of the library.
- `app/` — `linuractl`, the read-only command-line client: argument handling
  and the calls on the local D-Bus session bus, around the library's command
  catalog, argument checks, route inference and escaping.

The only outside call inside the library is SHA-256 (from `sha2`), behind
one trusted wrapper in `src/managed.rs`; `String::push` has one trusted
wrapper in `src/text.rs`.

Not part of this crate: the SQLite transaction store (recovery, schema
fingerprint, audit chain), the durable authority, the privileged systemd
executor and verifier, and the daemons. They are built on the
`linura_transaction`, `linura_executor_systemd`, `linura_verifier_systemd`,
`linura_linux_observation` and `linura_update` crates and on `rusqlite`, none
of which is available to this build. What they decide that stands on its own
(the convergence step, the request identity, the integrity tag, the schema
encoding that the store fingerprints, the caller context) is in `src/`; the
rest, including the digest the store takes of that encoding, is left out
rather than imitated.
