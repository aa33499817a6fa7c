# Axeno

Private one-to-one messaging over relays that see only sealed envelopes. The library in `src/` is
written in Verus: what each function does is stated in its contract and proved. `app/` is the
ordinary Rust around it.

## The library

| Modules | What they decide |
| --- | --- |
| `relay` | what a relay answers on a socket, what it keeps, and what it writes to disk |
| `store`, `payloads`, `frames`, `events` | the data of the client and of the protocol |
| `routes`, `connections` | the mailboxes of this side: making, choosing, rotating and retiring them |
| `contacts`, `invites`, `codes` | meeting people, moving them to another relay, verifying them |
| `keys`, `plaintext`, `padding`, `safety` | prekeys, message payloads, padding, safety numbers |
| `outbound`, `inbound`, `senders`, `ledger` | what sending needs, and what becomes of what came in |
| `link`, `requests`, `certificates`, `pow`, `ids`, `urls` | the client's side of talking to a relay |
| `identity`, `vault`, `settings`, `overview`, `messages` | what lies on disk and what is shown |
| `text`, `encoding`, `primitives`, `strmap`, `seqs` | text, encodings, cryptography, maps, lists |
| `route_laws`, `client_laws`, `relay::laws` | what holds of several functions together |

Contracts speak of views: every type `T` that holds text or lists has a view `TView` made of
sequences and maps, and a function is described by a specification function over those.

The clock, random routes and what libsignal computes come in as arguments, so that every decision
is proved for every value of them.

Cryptography, encodings, identifiers, randomness and the concurrent maps of the relay come from
the crates `argon2`, `base64`, `chacha20poly1305`, `dashmap`, `getrandom`, `hex`, `rand`, `sha2`,
`uuid` and `zeroize`. The calls stand in `primitives`, `encoding` and `relay::shelves`; the comment
above each says what is taken for granted of it.

## The program

Without an argument the program is the relay. It listens on `AXENO_BIND` (`127.0.0.1:8787`), keeps
its state under `AXENO_DATA_DIR` (`axeno-relay-data`), and protects its private keys on disk with
the passphrase `AXENO_KEY` where that is set. `/health` answers `ok`, `/ws` is the WebSocket.

With the argument `client` it is the client. Its window needs `tauri`, its sessions
`libsignal-protocol`, and its way to onion services `arti-client`; the modules `client::desktop`,
`client::engine`, `client::tor` and `signer` are the only ones that use them.
