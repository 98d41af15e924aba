# denia

The logic of a coding agent for the desktop, verified with Verus: sessions and the history that a
model sees, the turn of an agent from the user's words to its end, agent presets, stored
credentials, and a browser that the agent drives.

## Layout

- `src/` is the library. Every item of it is verified.
  - `session`, `message`, `stream`, `error`, `codes`, `tool`, `preset`: the data of a session, goals,
    forks and presets.
  - `history`, `history_laws`: the history that is derived from a session's log.
  - `agent/`: a turn as a state machine (`course`), the parts that it is made of (`turn`, `request`,
    `exec`, `pool`, `injections`, `input`, `instructions`, `step`, `assembly`), compaction (`compact`,
    `microcompact`), the guard against loops (`loop_guard`), calls that a model writes into its text
    (`rescue`), and what a user is told of failures (`errors`).
  - `browser/`: the commands (`command`), what they ask of a page (`page`, `answer`) and of a debugging
    protocol (`engine`, `acting`, `steps`, `replies`, `cdp`, `calls`, `scripts`), tabs, network
    traffic, scripts and breakpoints (`tabs`, `network`, `traffic`, `recon`, `recon_laws`, `inspect`,
    `remote`), and how a browser is found and started (`launch`, `manager`, `lifecycle`).
  - `credentials`: where a key is found, and the document that holds keys.
  - `desktop`: the arguments of the shell and its way out.
  - `text`, `json`, `map`, `paths`: texts, JSON values, maps with texts as keys, and paths.
- `app/` holds what stands around the library: files, sockets, processes, Playwright and the
  asynchronous loops. They hand plain values to the library and carry out what it decides.
- `tests/` runs the library on examples.

## What is trusted

Calls into other crates and parts of the standard library stand behind small functions marked
`external_body`, each with a comment that says what is claimed of the call: parsing and quoting JSON
(`serde_json`), whole numbers in floating point as text, base64, random identifiers (`uuid`), UTF-8
decoding, case mapping, and joining and comparing paths.
