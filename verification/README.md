# amm_rpc

Turns a quoted swap into a transaction that is ready to sign: the router to
call, the calldata, the value to attach, the allowance to grant first, the least
output and the most input. Nothing here signs, sends or talks to a node.

Uniswap V2, V3 and V4, Aerodrome (stable, volatile, Slipstream) and Curve have an
encoder. A route over several pools is cut into spans of one router each, and a
plan gives one transaction per span.

## Layout

- `src/primitives.rs`, `asset.rs`, `pools.rs`, `slippage.rs`: words, addresses,
  assets, what the encoders read of a pool, and the bounds that a tolerance sets.
- `src/abi.rs`, `reading.rs`: the layout of call arguments, and what reads back
  out of it. The bytes come from `alloy`, behind the trusted functions of
  `abi.rs`.
- `src/discover.rs`, `error.rs`: pool lookups and fetch errors.
- `src/execution/`: chain configuration, options, the encoders
  (`protocols/`), Universal Router commands, routing and plans.
- `src/execution/laws.rs`, `delivery.rs`, `terms.rs`, `floor.rs`: what holds of
  every built swap, whatever the pool: it is paid for, it pays the recipient, its
  amounts, bounds and deadline stand in the calldata, and its quote decides its
  output floor alone.
- `app/`: the clock, `alloy`'s types, `std` errors, and the loop that quotes a
  route, plans it and steps through the plan.

## What a caller supplies

Quotes, and the square-root price of a price limit, come from a pricing layer
and are passed in as plain values. A span of several pools, or of an exact
output, is handed out as a description (`SpanTx::Delegate`) for a builder of its
router; `Plan::span_built` moves the plan on.
