# mailroom

A personal-vault router built on the Johnny Decimal system. Everything that
arrives (journal text, uploaded files, device captures, webhooks) travels in
an envelope; the Mailroom decides which Nest of the vault it belongs to,
names the files it is stored as, mints a child Nest per item for a Rookery,
and keeps the vault's manifests consistent when a branch is renumbered.

- `src/` is the library, verified with Verus: routing decisions, file
  naming, listings, the attendant, the command-line readers, the route
  state machines, the hub's dispatch and chat routing, and the model
  request plans. Each public function states its behaviour as a contract;
  the `law_*` proof functions state what holds across calls.
- `app/` is the program around it: the HTTP servers, the command-line
  tools, and every read and write of the disk and the network.
- `tests/` runs the library on concrete cases.

The attendant deduplicates by content: a minted child's address is the
Rookery's id and the first eight hex digits of the SHA-256 of the item's
content. The library computes that digest with the `sha2` crate (the only
outside crate here that the project did not already use); `app/` only
reads a file's bytes from disk when the content is a file.
