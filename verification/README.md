# agentusage

`au` monitors how much quota AI providers have left. Each provider is a plugin
(a `plugin.json` manifest and a script run in QuickJS); its probe reports usage
lines, which become a provider snapshot, and the snapshots give a
recommendation of the provider to use next.

- `src/` is the library, verified with Verus: snapshots (`snapshot.rs`), the
  recommendation (`recommendation.rs`), plugin ordering and probe output
  (`plugin_runtime/`), the plugin sandbox's path, method and environment rules
  (`plugin_runtime/host_api.rs`), credential and plugin-directory decisions
  (`credential.rs`, `config.rs`) and the decisions of the subcommands
  (`commands/`).
- `app/` is the `au` program around it: the command line, files, the keyring,
  HTTP, sqlite, QuickJS, the clock and the floating-point arithmetic on usage
  numbers, which the library carries as the bit patterns of the doubles.
- `tests/` runs the library on concrete values.
