# aether_usage_policy

Usage policies of subscription plans, and the ledgers and wallets that enforce them.

A plan grants entitlements; some of them are usage policies: limits on requests, on requests at a
time, or on cost, each within a window of time. The library reads and validates them, compiles the
plans of a user into one policy, places its windows in the calendar of a time zone, decides what to
ask the run-time state and the ledgers for, and keeps the ledgers of admissions, reservations and
settlements. Every function in `src/` is verified with [Verus](https://github.com/verus-lang/verus)
against its contract; the laws that span several functions are public proof functions.

| Part | Modules |
| --- | --- |
| Entitlements and usage policies | `entitlement`, `usage_policy`, `policy_parser`, `replacement` |
| The policy of a user | `effective_policy`, `effective_policy_laws`, `effective_policy_sources` |
| Windows in time | `timezone`, `calendar`, `plan_windows`, `calendar_window_laws` |
| Admission and cost | `plan_admission_flow`, `plan_usage_policy`, `admission` |
| Ledgers | `request_ledger`, `cost_ledger`, their `_laws`, `ledger_input`, `ledger_request_laws`, `retention`, `token_map` |
| Settlement | `wallet`, `settlement`, `settlement_repository` |
| Amounts | `binary64`, `binary64_sum`: doubles by their bits, with exact arithmetic |
| Administration | `billing_plans`, `billing_plan_routes`, `plan_grants`, `plan_grant_flow`, `usage_cleanup`, `path` |
| WebSocket | `websocket_admission`, `websocket_upstream` |

Calls into `chrono`, `chrono-tz` and `uuid` stand behind small trusted functions in `timezone`,
`calendar`, `plan_usage_policy` and `plan_grants`; the comment above each says what is taken for
granted. `app/` holds what surrounds the library: JSON documents, locks, HTTP and WebSocket plumbing.
