//! Records of the index database and how they are read from rows of
//! column values and written as statement parameters.
use vstd::prelude::*;
use crate::db::indexer::{lemma_namespace_split, namespace_and_key};
use crate::decimal::{i64_text, int_text};
use crate::meta_map::MetadataMap;
use crate::text::{concat_str, ends_with_char, opt_view, views};

verus! {

/// A column value of a result row, as the database hands it over
/// (floating-point values are only told apart, not held).
pub enum Cell {
    Null,
    Integer(i64),
    Real,
    Text(String),
    Blob(Vec<u8>),
}

/// The integer a cell holds, if it holds one.
pub open spec fn cell_int(c: Cell) -> Option<i64> {
    match c {
        Cell::Integer(i) => Some(i),
        _ => None,
    }
}

/// The text a cell holds, if it holds text.
pub open spec fn cell_text(c: Cell) -> Option<Seq<char>> {
    match c {
        Cell::Text(t) => Some(t@),
        _ => None,
    }
}

/// The integer of a cell, or `d` when it holds none.
pub open spec fn int_or(c: Cell, d: i64) -> i64 {
    match cell_int(c) {
        Some(i) => i,
        None => d,
    }
}

/// The text of a cell, or `d` when it holds none.
pub open spec fn text_or(c: Cell, d: Seq<char>) -> Seq<char> {
    match cell_text(c) {
        Some(t) => t,
        None => d,
    }
}

/// The integer a cell holds, if any.
pub fn cell_integer(c: &Cell) -> (r: Option<i64>)
    ensures
        r == cell_int(*c),
{
    match c {
        Cell::Integer(i) => Some(*i),
        _ => None,
    }
}

/// The text a cell holds, if any.
pub fn cell_string(c: &Cell) -> (r: Option<String>)
    ensures
        opt_view(r) == cell_text(*c),
{
    match c {
        Cell::Text(t) => Some(t.clone()),
        _ => None,
    }
}

/// The integer of a cell, or `d`.
pub fn integer_or(c: &Cell, d: i64) -> (r: i64)
    ensures
        r == int_or(*c, d),
{
    match c {
        Cell::Integer(i) => *i,
        _ => d,
    }
}

/// The text of a cell, or `d`.
pub fn string_or(c: &Cell, d: &str) -> (r: String)
    ensures
        r@ == text_or(*c, d@),
{
    match c {
        Cell::Text(t) => t.clone(),
        _ => d.to_owned(),
    }
}

/// Minimal representation of an indexed file used for change detection.
pub struct IndexedFile {
    pub mtime: i64,
    pub inode: Option<i64>,
}

/// A full file row for the grid.
pub struct FileRow {
    pub id: i64,
    pub path: String,
    pub filename: String,
    pub extension: Option<String>,
    pub size_bytes: Option<i64>,
    pub mtime: i64,
    pub file_kind: String,
    pub thumbnail_path: Option<String>,
    pub metadata: MetadataMap,
}

/// A single metadata row.
pub struct MetadataRow {
    pub id: i64,
    pub file_id: i64,
    pub namespace: String,
    pub key: String,
    pub value: Option<String>,
    pub data_type: String,
    pub updated_at: i64,
}

/// A column definition row.
pub struct ColumnRow {
    pub id: i64,
    pub label: String,
    pub namespace: String,
    pub key: String,
    pub data_type: String,
    pub write_dest: String,
    pub width_px: i64,
    pub is_sortable: bool,
    pub is_editable: bool,
    pub created_at: i64,
}

/// A named view row.
pub struct ViewRow {
    pub id: i64,
    pub name: String,
    pub columns_json: String,
    pub created_at: i64,
    pub updated_at: i64,
}

/// Reads `id, path, filename, extension, size_bytes, mtime, file_kind,
/// thumbnail_path`; missing values take their defaults (`0`, `""`, `"other"`),
/// and the metadata starts empty.
pub fn decode_file_row(cells: &Vec<Cell>) -> (r: Option<FileRow>)
    ensures
        r is Some <==> cells.len() >= 8,
        r matches Some(f) ==> {
            &&& f.id == int_or(cells@[0], 0)
            &&& f.path@ == text_or(cells@[1], ""@)
            &&& f.filename@ == text_or(cells@[2], ""@)
            &&& opt_view(f.extension) == cell_text(cells@[3])
            &&& f.size_bytes == cell_int(cells@[4])
            &&& f.mtime == int_or(cells@[5], 0)
            &&& f.file_kind@ == text_or(cells@[6], "other"@)
            &&& opt_view(f.thumbnail_path) == cell_text(cells@[7])
            &&& f.metadata@ == Map::<Seq<char>, Option<Seq<char>>>::empty()
        },
{
    if cells.len() < 8 {
        return None;
    }
    Some(
        FileRow {
            id: integer_or(&cells[0], 0),
            path: string_or(&cells[1], ""),
            filename: string_or(&cells[2], ""),
            extension: cell_string(&cells[3]),
            size_bytes: cell_integer(&cells[4]),
            mtime: integer_or(&cells[5], 0),
            file_kind: string_or(&cells[6], "other"),
            thumbnail_path: cell_string(&cells[7]),
            metadata: MetadataMap::new(),
        },
    )
}

/// The key under which a file row shows a metadata value: `namespace:key`.
pub open spec fn qualified_key(namespace: Seq<char>, key: Seq<char>) -> Seq<char> {
    namespace + ":"@ + key
}

/// A file row shows a metadata value under its namespace, a colon and its
/// key, whatever the namespace (`system` included); when the namespace
/// holds no colon, splitting the shown key at its first colon gives the
/// namespace and the key back.
pub proof fn lemma_qualified_key_shape(namespace: Seq<char>, key: Seq<char>)
    ensures
        qualified_key(namespace, key) == namespace + ":"@ + key,
        qualified_key(namespace, key).len() == namespace.len() + 1 + key.len(),
        qualified_key(namespace, key).take(namespace.len() as int) == namespace,
        qualified_key(namespace, key)[namespace.len() as int] == ':',
        qualified_key(namespace, key).skip(namespace.len() as int + 1) == key,
        (forall|i: int| 0 <= i < namespace.len() ==> namespace[i] != ':') ==> namespace_and_key(
            qualified_key(namespace, key),
        ) == (namespace, key),
{
    reveal_strlit(":");
    let q = namespace + ":"@ + key;
    assert(q.take(namespace.len() as int) =~= namespace);
    assert(q.skip(namespace.len() as int + 1) =~= key);
    lemma_namespace_split(namespace, key);
}

/// Joins a namespace and a key as `namespace:key`.
pub fn qualify(namespace: &str, key: &str) -> (r: String)
    ensures
        r@ == qualified_key(namespace@, key@),
{
    let a = concat_str(namespace, ":");
    concat_str(a.as_str(), key)
}

/// Reads `namespace, key, value` into the entry that a file row's metadata
/// map receives.
pub fn decode_metadata_entry(cells: &Vec<Cell>) -> (r: Option<(String, Option<String>)>)
    ensures
        r is Some <==> cells.len() >= 3,
        r matches Some(e) ==> e.0@ == qualified_key(text_or(cells@[0], ""@), text_or(cells@[1], ""@))
            && opt_view(e.1) == cell_text(cells@[2]),
{
    if cells.len() < 3 {
        return None;
    }
    let ns = string_or(&cells[0], "");
    let key = string_or(&cells[1], "");
    Some((qualify(ns.as_str(), key.as_str()), cell_string(&cells[2])))
}

/// Reads `id, file_id, namespace, key, value, data_type, updated_at`.
pub fn decode_metadata_row(cells: &Vec<Cell>) -> (r: Option<MetadataRow>)
    ensures
        r is Some <==> cells.len() >= 7,
        r matches Some(m) ==> {
            &&& m.id == int_or(cells@[0], 0)
            &&& m.file_id == int_or(cells@[1], 0)
            &&& m.namespace@ == text_or(cells@[2], ""@)
            &&& m.key@ == text_or(cells@[3], ""@)
            &&& opt_view(m.value) == cell_text(cells@[4])
            &&& m.data_type@ == text_or(cells@[5], "text"@)
            &&& m.updated_at == int_or(cells@[6], 0)
        },
{
    if cells.len() < 7 {
        return None;
    }
    Some(
        MetadataRow {
            id: integer_or(&cells[0], 0),
            file_id: integer_or(&cells[1], 0),
            namespace: string_or(&cells[2], ""),
            key: string_or(&cells[3], ""),
            value: cell_string(&cells[4]),
            data_type: string_or(&cells[5], "text"),
            updated_at: integer_or(&cells[6], 0),
        },
    )
}

/// Reads `id, name, columns_json, created_at, updated_at`.
pub fn decode_view_row(cells: &Vec<Cell>) -> (r: Option<ViewRow>)
    ensures
        r is Some <==> cells.len() >= 5,
        r matches Some(v) ==> {
            &&& v.id == int_or(cells@[0], 0)
            &&& v.name@ == text_or(cells@[1], ""@)
            &&& v.columns_json@ == text_or(cells@[2], "[]"@)
            &&& v.created_at == int_or(cells@[3], 0)
            &&& v.updated_at == int_or(cells@[4], 0)
        },
{
    if cells.len() < 5 {
        return None;
    }
    Some(
        ViewRow {
            id: integer_or(&cells[0], 0),
            name: string_or(&cells[1], ""),
            columns_json: string_or(&cells[2], "[]"),
            created_at: integer_or(&cells[3], 0),
            updated_at: integer_or(&cells[4], 0),
        },
    )
}

/// Reads `id, label, namespace, key, data_type, write_dest, width_px,
/// is_sortable, is_editable, created_at`; a missing flag counts as set.
pub fn decode_column_row(cells: &Vec<Cell>) -> (r: Option<ColumnRow>)
    ensures
        r is Some <==> cells.len() >= 10,
        r matches Some(c) ==> {
            &&& c.id == int_or(cells@[0], 0)
            &&& c.label@ == text_or(cells@[1], ""@)
            &&& c.namespace@ == text_or(cells@[2], ""@)
            &&& c.key@ == text_or(cells@[3], ""@)
            &&& c.data_type@ == text_or(cells@[4], "text"@)
            &&& c.write_dest@ == text_or(cells@[5], "embedded_xmp"@)
            &&& c.width_px == int_or(cells@[6], 160)
            &&& c.is_sortable == (int_or(cells@[7], 1) != 0)
            &&& c.is_editable == (int_or(cells@[8], 1) != 0)
            &&& c.created_at == int_or(cells@[9], 0)
        },
{
    if cells.len() < 10 {
        return None;
    }
    Some(
        ColumnRow {
            id: integer_or(&cells[0], 0),
            label: string_or(&cells[1], ""),
            namespace: string_or(&cells[2], ""),
            key: string_or(&cells[3], ""),
            data_type: string_or(&cells[4], "text"),
            write_dest: string_or(&cells[5], "embedded_xmp"),
            width_px: integer_or(&cells[6], 160),
            is_sortable: integer_or(&cells[7], 1) != 0,
            is_editable: integer_or(&cells[8], 1) != 0,
            created_at: integer_or(&cells[9], 0),
        },
    )
}

/// Reads `id, mtime, inode` of an indexed file.
pub fn decode_indexed_file(cells: &Vec<Cell>) -> (r: Option<IndexedFile>)
    ensures
        r is Some <==> cells.len() >= 3,
        r matches Some(f) ==> f.mtime == int_or(cells@[1], 0) && f.inode == cell_int(cells@[2]),
{
    if cells.len() < 3 {
        return None;
    }
    Some(IndexedFile { mtime: integer_or(&cells[1], 0), inode: cell_integer(&cells[2]) })
}

/// Reads the answer to `PRAGMA user_version`: no row means version 0.
pub fn decode_user_version(row: &Option<Vec<Cell>>) -> (r: Option<i64>)
    ensures
        match row {
            None => r == Some(0i64),
            Some(cells) => (r is Some <==> cells.len() >= 1) && (r matches Some(v) ==> v == int_or(
                cells@[0],
                0,
            )),
        },
{
    match row {
        None => Some(0),
        Some(cells) => if cells.len() >= 1 {
            Some(integer_or(&cells[0], 0))
        } else {
            None
        },
    }
}

/// The prefix that every path directly inside `folder` starts with: the
/// folder path, ending with `/`.
pub fn folder_prefix(folder: &str) -> (r: String)
    ensures
        r@ == if folder@.len() > 0 && folder@.last() == '/' {
            folder@
        } else {
            folder@ + "/"@
        },
{
    if ends_with_char(folder, '/') {
        folder.to_owned()
    } else {
        concat_str(folder, "/")
    }
}

// ─── Statement parameters ───────────────────────────────────────────────────

/// The text bound for an optional value: the empty text stands for `NULL`
/// (statements read it back with `NULLIF(?, '')`).
pub open spec fn opt_param(o: Option<Seq<char>>) -> Seq<char> {
    match o {
        Some(t) => t,
        None => Seq::empty(),
    }
}

/// An absent value and the empty text are bound alike (both read back as
/// `NULL`); any other text is bound as itself, so no two other values meet.
pub proof fn lemma_empty_text_binds_as_null(a: Option<Seq<char>>, b: Option<Seq<char>>)
    ensures
        opt_param(Some(Seq::<char>::empty())) == opt_param(None),
        (a matches Some(t) && t.len() > 0) && (b matches Some(u) && u.len() > 0) ==> (opt_param(
            a,
        ) == opt_param(b) <==> a == b),
        (a matches Some(t) && t.len() > 0) ==> opt_param(a) != opt_param(None),
{
}

/// The text bound for an optional integer.
pub open spec fn opt_int_param(o: Option<i64>) -> Seq<char> {
    match o {
        Some(i) => int_text(i as int),
        None => Seq::empty(),
    }
}

/// The text bound for an optional string.
fn opt_text_param(o: &Option<String>) -> (r: String)
    ensures
        r@ == opt_param(opt_view(*o)),
{
    match o {
        Some(t) => t.clone(),
        None => String::new(),
    }
}

/// The text bound for an optional integer.
fn opt_integer_param(o: Option<i64>) -> (r: String)
    ensures
        r@ == opt_int_param(o),
{
    match o {
        Some(i) => i64_text(i),
        None => String::new(),
    }
}

/// The parameters of the file upsert, in the statement's order: path,
/// filename, extension, size, mtime, inode, kind, indexing time.
pub fn upsert_file_params(
    path: &str,
    filename: &str,
    extension: &Option<String>,
    size_bytes: Option<i64>,
    mtime: i64,
    inode: Option<i64>,
    file_kind: &str,
    indexed_at: i64,
) -> (r: Vec<String>)
    ensures
        views(r@) == seq![
            path@,
            filename@,
            opt_param(opt_view(*extension)),
            opt_int_param(size_bytes),
            int_text(mtime as int),
            opt_int_param(inode),
            file_kind@,
            int_text(indexed_at as int),
        ],
{
    let mut v: Vec<String> = Vec::new();
    v.push(path.to_owned());
    v.push(filename.to_owned());
    v.push(opt_text_param(extension));
    v.push(opt_integer_param(size_bytes));
    v.push(i64_text(mtime));
    v.push(opt_integer_param(inode));
    v.push(file_kind.to_owned());
    v.push(i64_text(indexed_at));
    assert(views(v@) =~= seq![
        path@,
        filename@,
        opt_param(opt_view(*extension)),
        opt_int_param(size_bytes),
        int_text(mtime as int),
        opt_int_param(inode),
        file_kind@,
        int_text(indexed_at as int),
    ]);
    v
}

/// The parameters of the metadata upsert: file id, namespace, key, value,
/// update time.
pub fn upsert_metadata_params(
    file_id: i64,
    namespace: &str,
    key: &str,
    value: &Option<String>,
    updated_at: i64,
) -> (r: Vec<String>)
    ensures
        views(r@) == seq![
            int_text(file_id as int),
            namespace@,
            key@,
            opt_param(opt_view(*value)),
            int_text(updated_at as int),
        ],
{
    let mut v: Vec<String> = Vec::new();
    v.push(i64_text(file_id));
    v.push(namespace.to_owned());
    v.push(key.to_owned());
    v.push(opt_text_param(value));
    v.push(i64_text(updated_at));
    assert(views(v@) =~= seq![
        int_text(file_id as int),
        namespace@,
        key@,
        opt_param(opt_view(*value)),
        int_text(updated_at as int),
    ]);
    v
}

/// The parameters of a queued write: file id, namespace, key, old value,
/// new value, creation time.
pub fn enqueue_write_params(
    file_id: i64,
    namespace: &str,
    key: &str,
    old_value: &Option<String>,
    new_value: &Option<String>,
    created_at: i64,
) -> (r: Vec<String>)
    ensures
        views(r@) == seq![
            int_text(file_id as int),
            namespace@,
            key@,
            opt_param(opt_view(*old_value)),
            opt_param(opt_view(*new_value)),
            int_text(created_at as int),
        ],
{
    let mut v: Vec<String> = Vec::new();
    v.push(i64_text(file_id));
    v.push(namespace.to_owned());
    v.push(key.to_owned());
    v.push(opt_text_param(old_value));
    v.push(opt_text_param(new_value));
    v.push(i64_text(created_at));
    assert(views(v@) =~= seq![
        int_text(file_id as int),
        namespace@,
        key@,
        opt_param(opt_view(*old_value)),
        opt_param(opt_view(*new_value)),
        int_text(created_at as int),
    ]);
    v
}

} // verus!
