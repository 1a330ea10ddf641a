# vaelorium

The sync, backup and content rules of Vaelorium, an offline-first
worldbuilding notebook, as a library verified with Verus.

- `src/` is the verified library. Every function states what it returns in
  `requires`/`ensures` over spec functions and views; the laws that relate
  several functions (an op replays and reverts its change, a Markdown export
  imports back, a search lists each page once, conflicts arise exactly on
  divergent edits, keys and encodings round-trip, ...) are public proof
  functions. Calls into outside crates (hashing, key derivation, encryption,
  compression, Base64, ULIDs, UUIDs, times, the OS keychain) sit behind small
  trusted wrappers whose contracts say what the crate promises.
- `app/` is the application around it: the SQLite database, the storage
  destinations and the cloud client, the background runner and the command
  handlers. It reads and writes; every rule it applies comes from the library.
- `tests/` run the library on concrete values.

Modules of the library, by concern:

- ops and sync: `fields`, `journal`, `conflict`, `engine`, `apply`,
  `statements`, `state`, `runner`, `sync_commands`, `registry`, `activity`,
  `errors`
- storage and backup: `backend`, `s3`, `hosted`, `snapshot`, `backup`,
  `restore`, `app_backend`, `keychain`, `crypto`, `codec`, `ids`
- content: `model`, `relations`, `content`, `numbers`, `migrations`, `app_state`,
  `tome_identity`, `cloud`, `text`
