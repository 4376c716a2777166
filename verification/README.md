# harvester

Follows a Substrate chain's finalized and pending blocks and hands their events to an index.

The library in `src/` holds the decisions, each with a contract that Verus proves:

- `lib` and `hashing`: the keys of storage entries.
- `metadata`, `event_arg`, `text`: a runtime's modules and events, and the textual form of
  event arguments.
- `client`: reading the metadata that a node hands out.
- `harvester`, `range`: what to ask of the chain and of the index, and in which order.
- `indexer`, `handle`, `finalize`: which records a block has, and which pending blocks have
  become final.

Whatever waits, asks a node or writes to a store is in `app/`. The library's state machines
say what they need next (`action`); the code in `app/` does it and hands the answer back
(`step`), after it has tested that the answer can be taken (`can_take`).

The properties that hold of the library as a whole are the public proof functions whose names
begin with `law_`.
