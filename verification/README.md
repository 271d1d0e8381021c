# messenger_backend

The core of a peer-to-peer messenger whose behaviour is stated in contracts and
proved with Verus: key agreement and message encryption between two users,
onion routing over relays, mailboxes for users who are away, and the records
that the nodes publish about themselves.

## Layout

- `src/` is the verified library. It does no input or output of its own.
  - `crypto`, `identity`: the primitives, proof of work, the ratchet, key
    agreement, identities and recovery phrases.
  - `session`: sessions between users, the manager that holds them, and what
    it promises whatever its store and its sources answer.
  - `wire`, `protocol`, `encoding`, `bytes`, `text`: byte and text formats.
  - `network`: onion packets, relays, mailboxes, record keeping, the dispatcher
    for incoming packets, work that waits for lookups, and the node's decisions.
  - `storage`: what is kept of sessions, keys and mailboxes, as plain rows.
  - `services`: start-up, bootstrap, cover traffic and background rounds.
  - `config`, `cli`: settings and the console's commands.
- `tests/` runs the library on concrete values.
- `app/` is the program around it: the network event loop, the database, the
  HTTP bootstrap service and the console.

## What is trusted

The cryptographic primitives, random numbers, the clock and text encodings come
from outside crates. Each call stands in a small function marked
`external_body`, whose comment says what its contract claims of the crate.
Statements that need a primitive's result speak of it by name, and every proof
about the library holds whatever the primitive computes beyond the facts given
there.

Stores and sources are traits that the program implements. Their spec functions
say what an implementation holds and when it is sure to answer; what the library
proves of a session or a mailbox is stated over them.
