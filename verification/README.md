# opendut_core

Verified core pieces of openDuT's CARL, CLEO and EDGAR, written in Verus.

- `src/resources.rs` – an in-memory resource store keyed by id, with
  insert/get/remove, entry updates (`update().modify(..).or_insert(..)`),
  iteration and in-place modification of every resource; the laws of the
  store are proof functions at the end of the file.
- `src/executor.rs` – executor descriptors, configuration parameters and the
  container configuration derived from a descriptor.
- `src/termination.rs` – termination channels: tokio watch channels with a
  model of their label, of what was sent on them and of the value they hold.
- `src/executor_manager.rs` – EDGAR's executor manager: one termination
  channel per started executor, holding `false`, whose receiver goes to the
  container; termination sends `true` on every channel and reports which
  signals were delivered.
- `src/container_executor.rs` – CLEO's `create container-executor`: splitting
  `NAME=VALUE` environment assignments, building the descriptor from command
  line arguments and finding the peer of a descriptor read from JSON.
- `src/peer_service.rs` – EDGAR's decisions on messages from CARL: ping after
  pong, applying complete configurations, cluster setup, and when the receive
  loop stops.
- `app/` – the command line, file, network and task plumbing around these.
- `tests/` – tests on concrete values.
