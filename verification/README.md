# dual_venue_mm

The logic of a market maker on two venues, as a verified library: it quotes on Hyperliquid
(HL) and hedges with Interactive Brokers (IBKR). Prices and quantities are fixed-point `i64`
from the driver boundary on.

## Layout

- `src/types.rs`, `src/normalization_laws.rs`: orders, positions, and decimal text to fixed
  point.
- `src/order_book/`: ranking of levels, incremental changes, checks before publishing, the
  book with its sequence numbers, what its task publishes, and the laws of all that.
- `src/exchange/`: the interface of the venues, the two drivers, and the feed reader, a state
  machine that says what to do with the WebSocket next.
- `src/monitor.rs`: the figures that a consumer of snapshots reports.
- `src/text.rs`, `src/clock.rs`: strings, and time as the standard library has it.
- `app/`: the program around the library. It opens the WebSocket, reads JSON, runs the tasks,
  and does what needs floating point.
- `tests/`: tests on concrete values.

## Arithmetic

Where a computation could leave the range of its type, the function asks for an input on which
it does not, and a function beside it says whether an input is one: `price_fits` for
`normalize_price`, `can_apply` for `apply`, `can_step` for `step`, and so on.
