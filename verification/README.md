# netsystem-client

Client side of the Netsystem Binary API and stats protocols, verified with
Verus.

## Layout

- `src/stats/`: the stats segment. `protocol` is the published layout,
  `directory` decodes entries out of one image of the segment, `client` re-reads
  a segment that its publisher may rewrite at any moment, and `system`,
  `memory`, `buffer_pools`, `node` and `node_error` project raw values into
  reports. `looks` records every look at the mapping, and `questions` every
  question to a reader. `handoff` holds the decisions of the descriptor handoff.
- `src/shmem/`: the shared region: its header, its heaps, and what a failed
  queue operation says.
- `src/api/`: the Binary API. `message`, `control`, `memclnt`, `vpe`, `value` and
  `table` are the declared messages and values, `memory` is their storage in the
  region, `client` is the state of a connection, and `connect` and `exchange`
  are the machines that lead to a connection and wait for a message. `rpc` holds
  the typed services.
- `src/bytes.rs`, `src/list.rs`, `src/order.rs`, `src/text.rs`, `src/io.rs`: what
  the others are built from.
- `app/`: sockets, mappings, waiting, encoding and error messages. It performs
  what the library decides.
- `tests/`: the library run on concrete values.

## What is proved

A function that computes states in its contract what it returns for every input
it accepts, over mathematical models of the data. A function that depends on
what another process shows, or on what a reader answers, states what it returns
as a function of the looks it takes or the questions it asks, in their order.
`published_answer` is given `Looks` alone, and the `read_...` functions of the
projections are given `Questions` alone, so they look at and ask nothing else.
Of the time at which a report is taken, and of what the live memory does while
one image is decoded, nothing is stated.

The public proof functions named `law_...` state what holds across functions:
that an answer is decoded between two looks at the header that agree, that a
message is released exactly once, that what was encoded is decoded again.

## What is taken on trust

`core::str::from_utf8`, `String::from_utf8_lossy` and the monotonic clock of the
standard library, each in one place with a doc comment that says what is claimed
of it. Sixty-four-bit little-endian publishers are presumed, as the shared
layouts are.
