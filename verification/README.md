# etcd cluster coordinator

A cluster coordinator on top of etcd v3: leadership and locks, publish and
subscribe, a durable key-value store, and the peers that others register. The
logic is written and proved in Verus; a thin layer of ordinary Rust talks to
etcd.

## How it works

Each operation is a state machine. It asks for one call at a time (a read, a
transaction, a clock reading, a wait) and goes on with the reply, until it
finishes with its result. `src/protocol.rs` lists the calls and the replies.
Every step has an exact contract: the next call, or the result, as a function of
the state and the reply.

Over these contracts `src/store.rs` places a model of etcd, and the `*_laws.rs`
files prove what the operations amount to in it.

| Module | What it holds | What is proved of it |
|---|---|---|
| `config`, `tls` | configuration, its validation, TLS material | an accepted configuration is fail-closed; connections are opened as configured; credentials never cross in cleartext |
| `names` | keys in etcd | keyspaces do not share keys; nor do deployments with distinct prefixes, unless one prefix lies in a keyspace of the other; every event has a key of its own |
| `kv` | the key-value store | a read gives back what was written; a claim has one winner; expired is absent; a listing yields what is held |
| `lease` | leadership and locks | one holder at a time, whether it waited or tried; giving up frees the lock; a lapsed lease stays lapsed; renewals come in time |
| `peers` | listing and watching peers | exactly the registered peers are listed; every change is told in order |
| `events` | publish and subscribe | a published event reaches its subscribers; routing keys match exactly; expiry is not taken for a message |
| `backend` | the coordinator as its host sees it | the refusal of unsound configurations, the manifest, connecting: once, and again after a failure |
| `progress_laws` | | no operation gets stuck on an answer, unless it is a clock reading out of range |
| `registration_laws` | | nothing is ever written under the peers prefix |

Few things are trusted: the calendar arithmetic and formatting of `chrono`
(`src/time.rs`), and how the standard library reads bytes as text
(`src/text.rs`).

## Layout

- `src/`: the verified library.
- `app/`: the connection to etcd, the clock, tasks and streams, and the JSON form
  of the configuration. The wire format of event payloads comes from the host
  through `EnvelopeCodec`.
- `tests/`: tests of the library, with a small etcd held in memory.

## Configuration

| Field | Default | Meaning |
|---|---|---|
| `endpoints` | required | etcd endpoints, each with an explicit `http://` or `https://`, all with the same |
| `tls` | none | `ca_cert`, `client_cert`, `client_key`, `domain_name`; required for `https://`, refused without it |
| `auth` | none | `username`, `password`; refused over `http://` |
| `key_prefix` | `/mcpg/` | namespace of everything in etcd; ends in `/` |
| `node_id` | `<prefix>node-<hostname>` | stable identity of this node |
| `event_ttl_secs` | `60` | how long an event stays, in seconds |
| `lease_renew_before_expiry_percent` | `30` | a lease is renewed when this share of its time is left; taken between 1 and 99 |
