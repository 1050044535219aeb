# bookmarks

The logic of a bookmark manager, verified with Verus: importing bookmarks
from OneTab exports and Firefox JSON backups, exporting bookmarks,
categories and tags, building the category tree, the state machine of the
bookmark browser (settings, filters, paging, status log, background jobs),
domain statistics of the urls, and the models that the `Storeable` and
`Command` derives read from Rust items.

Layout:

- `src/` — the verified library; every public function has a contract.
- `tests/` — tests of the library on concrete values.
- `app/` — the command line program around the library: argument handling,
  file reading and writing, serialization to XML and MessagePack, and the
  token generation of the derives.
