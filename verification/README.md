# raft-kv

A key-value store replicated across nodes in the style of Raft. Clients write
and delete keys over HTTP; the leader batches the proposed commands, appends
them to its log, applies them to its store and sends the new entries to its
peers over gRPC; followers append what they receive and apply it too.

The library in `src/` is verified with Verus:

- `command.rs`: the commands (`Put`, `Del`) and their byte encoding in log
  entries, which decodes back to the same command;
- `wire.rs`: the calls into `bincode` that encode and decode;
- `state_machine.rs`: the store, held in a `dashmap::DashMap`, and the meaning
  of applying commands to it;
- `raft.rs`: log entries and the vote and append messages;
- `raft_node.rs`: a node's state and its decisions: flushing a batch as leader
  (or refusing it as a non-leader), appending a leader's entries as follower,
  gathering proposals into batches, answering votes; the store always equals
  the replay of the log;
- `text.rs`: substring search, used to leave the leader itself out of the
  peers it replicates to;
- `config.rs`: the peer list given on the command line and by discovery;
- `api.rs`: what the HTTP handlers compute;
- `laws.rs`: properties that span operations, such as a follower ending with
  the leader's log and store after handling the leader's append request, or
  the proposal driver flushing batches of 1 to 1000 proposals that, laid end
  to end, are the proposals received in order.

`app/` holds the program around it: command-line parsing, the HTTP server
(axum), the gRPC service and client (tonic), and the tokio tasks that run the
proposal driver and send append requests.
