# fieldnotes

The decision logic of Fieldnotes, a peer-to-peer scenario-testing desktop
app built on Holochain, written in Verus and proved against its contracts.

## Layout

- `src/` — the verified library. Each module states its rules as spec
  functions and proves the executable code against them:
  - `integrity` — entry and link validation, the administrator gate and the
    author binding of scenarios, as a dialogue with the host;
  - `coordinator`, `polls` — the zome-side selection and write rules;
  - `agent_key`, `codec`, `text` — key text forms and encodings;
  - `bulk_crypto`, `attachment` — the cohort cipher for attachments;
  - `migration`, `dna` — version installs and the migration bookkeeping;
  - `conductor`, `lair`, `process_ext`, `commands` — configuration, error
    wording, recovery decisions and the command layer's checks.
  Calls into outside crates (`base64`, `percent-encoding`, `ring`,
  `rand`) sit behind small `external_body` items whose contracts say what
  those crates document.
  The DNA's zomes themselves are built separately and shipped as a
  pre-built hApp that the app installs; `integrity`, `coordinator` and
  `polls` state and prove their decision rules over the host's answers,
  taken as plain values. They are a verified model of those rules, not the
  WASM that the conductor runs: the host glue (`#[hdk_extern]` functions
  that fetch links and records and commit entries) is not part of this
  crate.
- `tests/` — the library's tests, run against the real outside crates.
- `app/` — the Tauri shell: processes, sockets, files, zome calls and the
  serializable copies of the library's types. It hands the library plain
  values and acts on what it returns.
