# citrea_p2p

A peer-to-peer node for the Citrea network, with its logic verified by Verus.

## Layout

- `src/` — the verified library.
  - `types.rs`, `error.rs`: identifiers, hashes, signatures and the error type.
  - `peer.rs`, `message.rs`, `config.rs`: peer records, the node protocol's
    messages, and the node configuration (with the parsing of bootstrap lists).
  - `network.rs`: the node's peer table as a state machine. Every step
    (connect, disconnect, send, broadcast, handling each message kind, stop,
    start, a maintenance pass) is stated over an abstract view of the node;
    outgoing messages are queued and taken by the caller.
  - `messages/`: the Citrea messages (blocks, proofs, EVM transactions), their
    checks, and the envelope that carries them.
  - `sync/`: block storage, the block pipeline and the block sync service,
    which decides which ranges to ask for, what to do with responses, and when
    to retry.
  - `p2p_service.rs`: transport names and the placeholder P2P services.
  - `fibonacci.rs`: Fibonacci numbers.
  - `clock.rs`, `random.rs`, `text.rs`: the few calls into `std` and `rand`
    whose behaviour the library takes on trust, each with its contract.
- `tests/` — tests of the library on concrete values.
- `app/` — the node program: command line, logging, sockets, timers, the
  async service traits, JSON encoding of messages, and Binet's formula.
