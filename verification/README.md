# nut

The verified core of the "nut" content platform, written in Verus.

- `src/` — the library. Its functions are verified, except the few marked
  `#[verifier::external_body]` that call chrono, validator, `std::time` and
  `std::path`,
  whose contracts are trusted:
  - `errors` — the platform's errors, their texts, and the answer sent for a failed request;
  - `nut` — media types and their names;
  - `policy` — roles, stored grants, when a grant is in force, what granting
    and revoking write, and laws about checking a role after granting or
    revoking it;
  - `time` — plain dates and moments and the calls into chrono;
  - `locales` — the form for translated messages and its check;
  - `wiki` — how a requested wiki file is served;
  - `survey` — the order in which a survey form's tables are cleared.
- `tests/` — tests on concrete values.
- `app/` — Rocket handlers, Diesel queries and serde types around the library.
