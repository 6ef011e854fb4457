//! The database schema and the decision to migrate to it.
use vstd::prelude::*;
use vstd::string::StrSliceExecFns;
use crate::decimal::{i64_text, int_text};
use crate::text::{concat_str, pieces, split_at_char, trim, trimmed, views};

verus! {

/// The schema version that this program writes.
pub const SCHEMA_VERSION: i64 = 2;

/// The statements that create the schema, separated by `;`.
pub const INITIAL_SCHEMA: &'static str = r#"
CREATE TABLE IF NOT EXISTS files (
    id             INTEGER PRIMARY KEY,
    path           TEXT    NOT NULL UNIQUE,
    filename       TEXT    NOT NULL,
    extension      TEXT,
    size_bytes     INTEGER,
    mtime          INTEGER NOT NULL,
    inode          INTEGER,
    content_hash   TEXT,
    file_kind      TEXT    NOT NULL,
    indexed_at     INTEGER NOT NULL,
    thumbnail_path TEXT
) STRICT;

CREATE INDEX IF NOT EXISTS files_path_idx ON files(path);
CREATE INDEX IF NOT EXISTS files_mtime_idx ON files(mtime);

CREATE TABLE IF NOT EXISTS metadata (
    id         INTEGER PRIMARY KEY,
    file_id    INTEGER NOT NULL REFERENCES files(id) ON DELETE CASCADE,
    namespace  TEXT    NOT NULL,
    key        TEXT    NOT NULL,
    value      TEXT,
    data_type  TEXT    NOT NULL DEFAULT 'text',
    updated_at INTEGER NOT NULL
) STRICT;

CREATE INDEX IF NOT EXISTS metadata_file_id_idx ON metadata(file_id);
CREATE INDEX IF NOT EXISTS metadata_namespace_key_idx ON metadata(namespace, key);
CREATE UNIQUE INDEX IF NOT EXISTS metadata_file_ns_key_idx ON metadata(file_id, namespace, key);
;

CREATE TABLE IF NOT EXISTS columns (
    id          INTEGER PRIMARY KEY,
    label       TEXT    NOT NULL,
    namespace   TEXT    NOT NULL,
    key         TEXT    NOT NULL,
    data_type   TEXT    NOT NULL,
    write_dest  TEXT    NOT NULL DEFAULT 'embedded_xmp',
    width_px    INTEGER NOT NULL DEFAULT 160,
    is_sortable INTEGER NOT NULL DEFAULT 1,
    is_editable INTEGER NOT NULL DEFAULT 1,
    created_at  INTEGER NOT NULL
) STRICT;

CREATE UNIQUE INDEX IF NOT EXISTS columns_ns_key_idx ON columns(namespace, key);

CREATE TABLE IF NOT EXISTS views (
    id           INTEGER PRIMARY KEY,
    name         TEXT    NOT NULL UNIQUE,
    columns_json TEXT    NOT NULL,
    created_at   INTEGER NOT NULL,
    updated_at   INTEGER NOT NULL
) STRICT;

CREATE TABLE IF NOT EXISTS folder_views (
    path              TEXT    NOT NULL PRIMARY KEY,
    view_id           INTEGER NOT NULL REFERENCES views(id),
    apply_to_children INTEGER NOT NULL DEFAULT 0
) STRICT;

CREATE TABLE IF NOT EXISTS write_queue (
    id           INTEGER PRIMARY KEY,
    file_id      INTEGER NOT NULL REFERENCES files(id) ON DELETE CASCADE,
    namespace    TEXT    NOT NULL,
    key          TEXT    NOT NULL,
    old_value    TEXT,
    new_value    TEXT,
    status       TEXT    NOT NULL DEFAULT 'pending',
    error_msg    TEXT,
    created_at   INTEGER NOT NULL,
    completed_at INTEGER
) STRICT;

CREATE INDEX IF NOT EXISTS write_queue_status_idx ON write_queue(status);
CREATE INDEX IF NOT EXISTS write_queue_file_id_idx ON write_queue(file_id);
"#;

/// The statements of a script: its `;`-separated pieces, trimmed, without
/// the empty ones.
pub open spec fn statements_of(ps: Seq<Seq<char>>) -> Seq<Seq<char>>
    decreases ps.len(),
{
    if ps.len() == 0 {
        seq![]
    } else {
        let rest = statements_of(ps.drop_last());
        let t = trimmed(ps.last());
        if t.len() == 0 {
            rest
        } else {
            rest.push(t)
        }
    }
}

/// Splits a script into its statements.
pub fn sql_statements(script: &str) -> (r: Vec<String>)
    ensures
        views(r@) == statements_of(pieces(script@, ';')),
{
    let ps = split_at_char(script, ';');
    let ghost all = views(ps@);
    let mut out: Vec<String> = Vec::new();
    let mut i: usize = 0;
    while i < ps.len()
        invariant
            i <= ps.len(),
            all == views(ps@),
            all == pieces(script@, ';'),
            views(out@) == statements_of(all.take(i as int)),
        decreases ps.len() - i,
    {
        assert(all.take(i + 1).drop_last() =~= all.take(i as int));
        assert(all.take(i + 1).last() == ps@[i as int]@);
        let t = trim(ps[i].as_str());
        if t.unicode_len() > 0 {
            let ghost before = views(out@);
            out.push(t);
            assert(views(out@) =~= before.push(t@));
        }
        i = i + 1;
    }
    assert(all.take(i as int) =~= all);
    out
}

/// The statements that create the schema.
pub fn schema_statements() -> (r: Vec<String>)
    ensures
        views(r@) == statements_of(pieces(INITIAL_SCHEMA@, ';')),
{
    sql_statements(INITIAL_SCHEMA)
}

/// Whether a database at `version` must be brought to the current schema.
pub fn needs_migration(version: i64) -> (r: bool)
    ensures
        r == (version < SCHEMA_VERSION),
{
    version < SCHEMA_VERSION
}

/// The statement that records the current schema version.
pub fn user_version_statement() -> (r: String)
    ensures
        r@ == "PRAGMA user_version = "@ + int_text(SCHEMA_VERSION as int),
{
    let v = i64_text(SCHEMA_VERSION);
    concat_str("PRAGMA user_version = ", v.as_str())
}

} // verus!
