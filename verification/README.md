# insurance

An insurance-policy register, verified with Verus: owners create policies
with a monthly premium, pay premiums one at a time or in batches, deactivate
policies, page through their policies, and plan premium payments with
schedules that a keeper executes when they fall due. An administrator can
pause policy creation, premium payments, deactivation and the creation,
modification and cancellation of schedules; setting an external reference
and executing due schedules are never paused.

Policies and schedules are held in `Vec`s in the order of their ids, which
are handed out as 1, 2, 3, ... and never removed. On the ledger they are
`soroban_sdk::Map`s keyed by id; those maps hold host values that only an
`Env` can build, so they stay the storage format that `app/` converts at
the edge, and the library works on plain values.

Layout:

- `src/model.rs` — the register as a mathematical value (`InsuranceModel`)
  and, for every operation, which error it answers with and what state it
  leaves.
- `src/insurance.rs` — the register (`Insurance`) and its operations, each
  proved against the model.
- `src/paging.rs` — pages of an owner's policies and their cursors.
- `src/laws.rs` — properties across operations: paging covers every match
  once, reading back what was created, pausing, batch payments, idempotent
  schedule execution, and, over any sequence of operations, the invariant,
  the permanence of every policy and schedule with its id and owner, and
  cancelled schedules staying cancelled.
- `src/types.rs` — policies, schedules, pages, errors and event kinds.
- `src/mocks.rs` — fixed-answer stand-ins for the sibling contracts a
  financial report reads from.
- `app/lib.rs` — the Soroban contract: authorisation, instance storage,
  ledger time and events around the verified register.
