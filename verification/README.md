# malachite

A verified core of a Tendermint-style consensus node, written in Verus.

`src/` is the library; every function in it carries a contract that Verus proves:

- `threshold`: quorum thresholds and the laws relating them.
- `validator_set`, `address`, `keys`, `node`: validators kept sorted by address.
- `abci_codec`, `abci_app`: the length-prefixed framing of the ABCI socket and what the
  host makes of the application's replies.
- `proposal`, `host`, `part_store`, `block_store`: building proposals from transactions,
  streaming and reassembling them, and the bookkeeping of the stores.
- `kv_mempool`, `entry`, `kv_host`: the key-value application's mempool and requests.
- `block_sync`, `gossip_mempool`, `crdt`, `peers`, `channel`, `discovery`: the networking
  state machines, topics and messages.
- `driver_fixtures`: ready-made inputs, outputs and states of the round driver.

Calls into outside crates (prost, sha3, bincode, redb, tendermint, libp2p, std) go
through small trusted wrappers whose contracts state what those crates document.

`app/` holds the I/O around the library (sockets, files, `redb`, libp2p, async loops);
`tests/` exercises the library on concrete values.
