# trade_approval

A verified workflow for submitting, approving and executing forward contracts,
written in Verus. Trades move `Draft -> PendingApproval -> (Approved | NeedsReapproval
-> Approved) -> SendToCounterparty -> Executed`, and can be cancelled from any state
before `Executed`; every transition is recorded in the trade's audit trail.

Layout:

- `src/` — the library, verified by Verus:
  - `trade.rs`: trades, their details, validation, transitions, versions and diffs;
  - `registry.rs`: the registry of trades, field-level differences and their text;
  - `history.rs`: history entries and timestamps; `date.rs`: calendar dates;
  - `text.rs`: decimal numerals, substring search and upper-casing;
  - `laws.rs`: properties that span several operations, proved.
- `tests/`: tests of the library.
- `app/`: conversions to chrono's types and `Display` adapters.
