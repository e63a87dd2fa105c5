# creatio_devhub

The decisions behind Creatio DevHub, a desktop workbench over the `clio` and
`git` command-line tools for Creatio developers, written in Verus and proved
against their contracts.

## Layout

- `src/` — the verified library. Every function carries a `requires` /
  `ensures` contract that Verus checks; the laws that relate several
  functions stand as public proof functions beside them.
  - `text`, `json` — text and JSON helpers the rest is stated over.
  - `clio`, `git`, `tools`, `diagnostics` — reading what the tools print,
    choosing what to run, and explaining failures.
  - `packages`, `applications`, `workspaces`, `content`, `refdata`, `sql`,
    `objectmove`, `assoc` — the project's data: listings, descriptors,
    the workspace registry, lookup snapshots and SQL results.
  - `jobs`, `transfer`, `deploy`, `migration`, `capture`, `wsjob`,
    `github`, `cache` — the job table and the state machines of the
    long-running flows: each step takes the state and what just happened,
    and returns the next state and the action to perform.
- `app/` — ordinary Rust around the library: running processes, files,
  HTTP, threads, JSON (de)serialisation and the commands the window calls.
  It performs the actions the library decides on and hands back what
  happened.
- `tests/` — tests of the library on concrete values.

The few calls into outside code (`csv`, `std` text case mapping, the clock)
stand behind small trusted wrappers whose doc comments say what is assumed
of them.
