# meeting_assistant

The verified core of a local-first meeting assistant.

- `src/` is the library, verified with Verus: immutable evidence records and
  citations that resolve against them, expert-profile validation, rendering,
  hashing, bundles and activation rules, the live-assist session state
  machine and provider rules, the answer-harness audits, application paths
  and onboarding progress.
- `tests/` exercises the library on concrete values.
- `app/` holds what the library cannot: JSON and file edges, floating-point
  scores and audio samples, and serialisable copies of library types.

Digests come from `sha2`, Unicode normalisation from `unicode-normalization`,
URL parsing from `url` and UUID parsing from `uuid`; each call stands behind a
small trusted wrapper whose contract is stated in the library.
