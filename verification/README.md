# clash_verge

The configuration, diagnostics and service logic of the Clash Verge desktop
client, written in Verus: each function states what it computes in its
contract, and Verus proves it.

## Layout

- `src/yaml.rs`: YAML values as plain data, with insertion-ordered mappings
  whose keys are unique, and their mathematical model.
- `src/merge.rs`: laying one mapping over another, the merge rule file beside
  the executable, and comparing mappings whatever their order.
- `src/tun.rs`, `src/enhance.rs`: settling the TUN and DNS sections of the
  runtime configuration.
- `src/help.rs`: `key=value` header values, profile file names, subscription
  URLs, ids and file names.
- `src/diagnostic.rs`: the route through proxy groups, the delay test, the
  service log summary, the proxy DNS findings, fake-IP ranges, the system
  resolver's verdict and the reasons a TUN diagnosis gives.
- `src/service.rs`, `src/service_host.rs`: the Windows service that hosts the
  core, seen from the app and from inside the service, and the steps of
  starting the core through it.
- `src/logger.rs`, `src/debug_recorder.rs`: the core's log and the debug
  recording.
- `src/feat.rs`, `src/core_manager.rs`: the decisions behind the app's features
  and the core's life cycle.
- `src/text.rs`: character-level text operations.
- `tests/`: tests of the library.
- `app/`: the command-line front end with the file, network and process work.
