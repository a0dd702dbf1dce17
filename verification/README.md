# prop_amm

Pricing engine for a proportional AMM, verified with Verus.

- `src/volatility.rs`: rolling window of the last 24 nonzero prices and the
  range volatility computed over it; the integer part of the returns-based
  volatility.
- `src/spread.rs`: spread, fee, impact and size limits from market
  conditions and inventory, with their monotonicity laws.
- `src/le_bytes.rs`, `src/integration.rs`: the 29-byte parameter-update
  instruction (encode, parse, round trips) and the decisions of the update
  handler.
- `src/keeper.rs`: keeper state and the update it computes.
- `app/`: Solana accounts, transactions, the async polling loop, and the
  floating-point square root of the returns-based volatility.
