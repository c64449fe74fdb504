# cw20-ics20

A CosmWasm contract that keeps an internal ledger of its token and moves it over
IBC: plain ICS-20 transfers to a remote chain, and swaps and pool joins on an
Osmosis-like chain through an interchain account, with refunds of what fails or
times out.

- `src/` is the library, verified with Verus: the ledger, the channel records and
  their invariant, every message and packet handler as a function from state and
  event to new state and response, the parsing of memos and voucher denominations,
  the protobuf messages, their wire encoding, the packets that carry them and the
  reading back of a failed packet's first message, and the queries.
- `app/` holds the CosmWasm entry points: they load and store the state, read and
  write JSON, and call the library.
- `tests/` runs the library on concrete scenarios.
