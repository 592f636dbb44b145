# Payment processors for a Cashu mint

A verified library, and a thin program around it, that let a Cashu mint receive
and send Lightning payments through one of three backends:

- an LDK Server node (BOLT11 and BOLT12),
- a Lexe managed node (BOLT11),
- an LNbits wallet (BOLT11).

## Layout

- `src/` is the library. What a backend decides and computes is written in Verus
  and proved against its contracts: amounts and fees, invoices and expiries,
  which payment answers which request, when a payment may be submitted, what is
  reported to the mint and what a stream of events does next.
  - `payment.rs`, `text.rs`, `encoding.rs`, `textmap.rs`, `invoice.rs` and
    `server.rs` are shared.
  - `ldk_server/`, `lexe/` and `lnbits/` hold one backend each. The `laws.rs` in
    each states what holds across its functions; `run_laws.rs`, `flow_laws.rs` and
    `stream_laws.rs` of `ldk_server/` follow quotes and reports, payments, and
    event streams while other things happen.
- `app/` is the program: settings from files and the environment, network and
  database access, and the gRPC server. It performs what the library asks for and
  hands back what came of it.
- `tests/` runs the library on concrete values.

The program takes the backend as its argument: `ldk-server`, `lexe` or `lnbits`.
