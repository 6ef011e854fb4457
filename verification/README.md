# nomen

The verified core of Nomen, a desktop file manager that shows and edits file
metadata (EXIF, IPTC, XMP, ID3, …) in a spreadsheet-like grid, backed by a
local index database and a long-running ExifTool process.

`src/` is a Verus library: every function there carries a contract that Verus
proves. It holds the rules of the application:

- `exiftool/protocol.rs` — the `-stay_open` command protocol (`-execute####`
  / `{ready####}`) and the assembling of ExifTool's answers;
- `exiftool/retry.rs` — the restart policy (five attempts, doubling pauses);
- `exiftool/extract.rs` — flattening ExifTool's JSON into a metadata map;
- `exiftool/write.rs` — tag-write arguments and reading ExifTool's reports;
- `db/` — index records, row decoding and parameter encoding, the schema,
  and the decisions of the indexer, the folder watcher and the write-back
  worker (batching queued writes per file, settling them);
- `commands.rs` — bulk edits, write summaries and command messages;
- `text.rs`, `decimal.rs`, `paths.rs`, `meta_map.rs` — text, numbers, file
  names and the metadata map, each with its mathematical meaning.

`app/` is the Tauri application around it: the commands, the turso database
connections, the ExifTool process and its pipes, the `notify` watcher, and
the serialisable copies of the library's records.

`tests/` runs the library on concrete values.
