# minis

The verified core of the OpenMinis Android agent framework, written in
Verus. The library's own functions carry contracts that Verus proves.
The few calls into std, uuid and serde_json stand behind small trusted
wrappers: their contracts are believed, not proved, and each says in its
doc comment what it claims of the call.

- `browser/` — browser actions and their validation, user-agent profiles,
  the Google sign-in router, JavaScript snippets with safe string quoting,
  cookies per domain, the bounded tab pool and browsing history.
- `minis_url/` — the `minis://` scheme: namespaces, URL to path and back
  (resolved paths never leave `/var/minis/`), session directories.
- `offload/` — command-line style argument parsing, the decisions of each
  Android capability handler, results and the permission gate.
- `agent/` — chat messages and context compaction, the built-in tools'
  logic, sessions, the persona, the loop settings, a scripted provider.
- `memory/` — day logs (listed latest first) and keyword search.
- `config/` — the settings registry and the built-in settings.
- `text.rs`, `order.rs`, `params.rs`, `paths.rs`, `time.rs`, `json.rs` —
  strings, their order, call parameters, paths and timestamps.

`app/` holds what the library leaves to its caller: the clock and the
random bytes of new session ids (read there and handed in), file and network I/O,
the async tool and handler traits and registries, serde forms of the
library's types, and the Android entry points. `tests/` exercises the
library on concrete values.
