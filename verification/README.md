# cyan_backend

The backend of a peer-to-peer whiteboard. Groups hold workspaces, workspaces hold boards, files and
chats; nodes of a group gossip about every change and send each other snapshots.

* `src/` is the library. It decides and computes: which rows a command or an event of a peer
  changes, what is sent to whom, how snapshots are assembled and restored, how frames, identifiers,
  invitations, prompts, graphs and imported boards are made. Each function has a contract that Verus
  proves. The tables are modelled in `tables.rs`, so that what nodes rely on is stated of rows, not
  of statements: see `replication.rs` and the laws at the end of `snapshot.rs`, `board.rs`,
  `element.rs` and `system.rs`.
* `app/` is the program around it: SQLite, the network, the services that integrations read, the
  models, the C interface and the command line.
* `tests/` run the library on concrete values.

Calls into other crates stand in small functions whose contracts are taken on trust; each says so in
its documentation. They are in `hash.rs` (BLAKE3 and hexadecimal), `json.rs` (serde_json),
`ai_bridge.rs` (base64), `invitation.rs` (arithmetic of the BN254 scalar field), and, for the
standard library, in `text.rs` and `strings.rs`.
