# graphshell_registries

The registries behind the Graphshell desktop shell, written in Verus. The
functions under `src/` are verified against their `requires`/`ensures`
contracts, except the small wrappers marked `#[verifier::external_body]`
around outside crates (cryptography, hashing, URL and key parsing, MIME
lookup, NIP-44 encryption, the clock): their contracts are trusted, and each
wrapper's doc comment says what it claims of the crate it calls.

- `src/` — the verified library: actions and their handlers, protocol and
  viewer selection, themes, physics/canvas/layout/workbench profiles, the
  knowledge index, mod extensions, identity keys and presence bindings, the
  trust store, the Nostr core (relay policy, subscriptions, NIP-07 and NIP-46
  permissions and runtime capabilities, event signing, the delegated signing
  flow and the requests and answers of a NIP-46 call), renderer
  attachments, agents, and the runtime that ties them together.
- `tests/` — the test suite, run against the compiled library.
- `app/` — the unverified shell around it: files on disk (identity keys,
  trusted peers), websocket relay connections and the publishes,
  subscriptions and NIP-46 calls made over them, JSON of the NIP-07 bridge and relay frames, floating-point contrast
  checks and search relevance, and the process-wide runtime.

Calls into outside crates (ed25519-dalek, secp256k1, sha2, url, nostr,
mime_guess, rand) go through small trusted wrappers whose contracts
are stated next to them.
