//! The decisions behind the commands that the grid invokes: how a bulk edit
//! becomes single writes, how queued writes are summarised, which column a
//! new definition became, and the messages returned on failure.
use vstd::prelude::*;
use crate::db::rows::ColumnRow;
use crate::paths::{file_name_of, joined_path, path_file_name, path_join};
use crate::text::{concat_str, copy_opt, opt_view, same_text};

verus! {

/// One cell edit to record and queue.
pub struct MetadataWriteInput {
    pub file_id: i64,
    pub namespace: String,
    pub key: String,
    pub old_value: Option<String>,
    pub new_value: Option<String>,
}

/// The summary of a batch of queued edits.
pub struct WriteResultOutput {
    pub success: bool,
    pub affected_files: usize,
    pub failed_files: usize,
    pub errors: Vec<WriteErrorOutput>,
}

/// An edit that could not be queued.
pub struct WriteErrorOutput {
    pub file_id: i64,
    pub path: String,
    pub message: String,
}

/// One value written to the same field of many files.
pub struct BulkWriteInput {
    pub file_ids: Vec<i64>,
    pub namespace: String,
    pub key: String,
    pub value: Option<String>,
}

/// A file operation requested from the grid.
pub enum FileOperationInput {
    Open { paths: Vec<String> },
    Reveal { paths: Vec<String> },
    Rename { path: String, next_name: String },
    Move { paths: Vec<String>, destination: String },
    Copy { paths: Vec<String>, destination: String },
    Delete { paths: Vec<String> },
}

/// The answer to a file operation.
pub struct FileOpResultOutput {
    pub success: bool,
    pub message: Option<String>,
    pub paths: Option<Vec<String>>,
}

/// A column definition to add.
pub struct ColumnInput {
    pub label: String,
    pub namespace: String,
    pub key: String,
    pub data_type: String,
    pub write_dest: String,
    pub width_px: Option<i64>,
}

/// A named view to save.
pub struct SaveViewInput {
    pub name: String,
    pub columns_json: String,
}

/// The single edits of a bulk edit: one per file, in order, each writing
/// the bulk value with no previous value recorded.
pub fn expand_bulk_write(write: &BulkWriteInput) -> (r: Vec<MetadataWriteInput>)
    ensures
        r.len() == write.file_ids.len(),
        forall|i: int|
            0 <= i < r.len() ==> {
                &&& (#[trigger] r@[i]).file_id == write.file_ids@[i]
                &&& r@[i].namespace@ == write.namespace@
                &&& r@[i].key@ == write.key@
                &&& r@[i].old_value is None
                &&& opt_view(r@[i].new_value) == opt_view(write.value)
            },
{
    let mut out: Vec<MetadataWriteInput> = Vec::new();
    let mut i: usize = 0;
    while i < write.file_ids.len()
        invariant
            i <= write.file_ids.len(),
            out.len() == i,
            forall|k: int|
                0 <= k < i ==> {
                    &&& (#[trigger] out@[k]).file_id == write.file_ids@[k]
                    &&& out@[k].namespace@ == write.namespace@
                    &&& out@[k].key@ == write.key@
                    &&& out@[k].old_value is None
                    &&& opt_view(out@[k].new_value) == opt_view(write.value)
                },
        decreases write.file_ids.len() - i,
    {
        out.push(
            MetadataWriteInput {
                file_id: write.file_ids[i],
                namespace: write.namespace.clone(),
                key: write.key.clone(),
                old_value: None,
                new_value: copy_opt(&write.value),
            },
        );
        i = i + 1;
    }
    out
}

/// The edits whose queueing failed, with their messages, in order.
pub open spec fn failures(writes: Seq<MetadataWriteInput>, outcomes: Seq<Option<String>>) -> Seq<(i64, Seq<char>)>
    decreases outcomes.len(),
{
    if outcomes.len() == 0 {
        seq![]
    } else {
        let rest = failures(writes.drop_last(), outcomes.drop_last());
        match outcomes.last() {
            Some(m) => rest.push((writes.last().file_id, m@)),
            None => rest,
        }
    }
}

/// How many edits failed: the outcomes that hold an error message.
pub open spec fn failure_count(outcomes: Seq<Option<String>>) -> nat {
    outcomes.filter(|o: Option<String>| o is Some).len()
}

/// Every failed edit has an error entry of its own, in the order of the
/// edits: the edit at position `i` that failed with message `m` is listed,
/// as its file and `m`, after exactly as many entries as edits failed
/// before it; and there are as many entries as failed edits.
pub proof fn lemma_every_failure_listed(writes: Seq<MetadataWriteInput>, outcomes: Seq<Option<String>>)
    requires
        writes.len() == outcomes.len(),
    ensures
        failures(writes, outcomes).len() == failure_count(outcomes),
        forall|i: int|
            0 <= i < outcomes.len() && (#[trigger] outcomes[i]) is Some ==> {
                &&& failure_count(outcomes.take(i)) < failures(writes, outcomes).len()
                &&& failures(writes, outcomes)[failure_count(outcomes.take(i)) as int] == (
                    writes[i].file_id,
                    outcomes[i]->0@,
                )
            },
    decreases outcomes.len(),
{
    reveal(Seq::filter);
    let n = outcomes.len();
    if n > 0 {
        let wd = writes.drop_last();
        let od = outcomes.drop_last();
        lemma_every_failure_listed(wd, od);
        assert(outcomes.filter(|o: Option<String>| o is Some) == {
            let sub = od.filter(|o: Option<String>| o is Some);
            if outcomes.last() is Some {
                sub.push(outcomes.last())
            } else {
                sub
            }
        });
        let rest = failures(wd, od);
        assert forall|i: int|
            0 <= i < outcomes.len() && (#[trigger] outcomes[i]) is Some implies {
                &&& failure_count(outcomes.take(i)) < failures(writes, outcomes).len()
                &&& failures(writes, outcomes)[failure_count(outcomes.take(i)) as int] == (
                    writes[i].file_id,
                    outcomes[i]->0@,
                )
            } by {
            if i < n - 1 {
                assert(outcomes.take(i) =~= od.take(i));
                assert(od[i] == outcomes[i]);
                assert(wd[i] == writes[i]);
            } else {
                assert(outcomes.take(i) =~= od);
                assert(outcomes.last() == outcomes[i]);
                assert(writes.last() == writes[i]);
            }
        }
    }
}

/// Summarises a batch of edits from the outcome of queueing each one (the
/// error message where it failed): every failure is listed with an empty
/// path, the others count as affected, and the batch succeeds when nothing
/// failed.
pub fn write_result_output(writes: &Vec<MetadataWriteInput>, outcomes: &Vec<Option<String>>) -> (r: WriteResultOutput)
    requires
        writes.len() == outcomes.len(),
    ensures
        r.errors.len() == failures(writes@, outcomes@).len(),
        forall|i: int|
            0 <= i < r.errors.len() ==> (#[trigger] r.errors@[i]).file_id == failures(
                writes@,
                outcomes@,
            )[i].0 && r.errors@[i].message@ == failures(writes@, outcomes@)[i].1
                && r.errors@[i].path@ == Seq::<char>::empty(),
        r.failed_files == r.errors.len(),
        r.affected_files + r.failed_files == writes.len(),
        r.success == (r.failed_files == 0),
        r.failed_files == failure_count(outcomes@),
{
    let mut errors: Vec<WriteErrorOutput> = Vec::new();
    let mut i: usize = 0;
    while i < outcomes.len()
        invariant
            i <= outcomes.len(),
            writes.len() == outcomes.len(),
            errors.len() == failures(writes@.take(i as int), outcomes@.take(i as int)).len(),
            errors.len() <= i,
            forall|k: int|
                0 <= k < errors.len() ==> (#[trigger] errors@[k]).file_id == failures(
                    writes@.take(i as int),
                    outcomes@.take(i as int),
                )[k].0 && errors@[k].message@ == failures(
                    writes@.take(i as int),
                    outcomes@.take(i as int),
                )[k].1 && errors@[k].path@ == Seq::<char>::empty(),
        decreases outcomes.len() - i,
    {
        let ghost before = failures(writes@.take(i as int), outcomes@.take(i as int));
        assert(writes@.take(i + 1).drop_last() =~= writes@.take(i as int));
        assert(outcomes@.take(i + 1).drop_last() =~= outcomes@.take(i as int));
        match &outcomes[i] {
            Some(m) => {
                errors.push(
                    WriteErrorOutput {
                        file_id: writes[i].file_id,
                        path: String::new(),
                        message: m.clone(),
                    },
                );
            },
            None => {},
        }
        i = i + 1;
    }
    assert(writes@.take(i as int) =~= writes@);
    assert(outcomes@.take(i as int) =~= outcomes@);
    let failed = errors.len();
    proof {
        lemma_every_failure_listed(writes@, outcomes@);
    }
    WriteResultOutput {
        success: failed == 0,
        affected_files: writes.len() - failed,
        failed_files: failed,
        errors,
    }
}

/// The width of a new column: the given one, or 160 pixels.
pub fn column_width(width_px: Option<i64>) -> (r: i64)
    ensures
        r == match width_px {
            Some(w) => w,
            None => 160,
        },
{
    match width_px {
        Some(w) => w,
        None => 160,
    }
}

/// The index of the first column with the given namespace and key, or -1.
pub open spec fn first_column(cols: Seq<ColumnRow>, namespace: Seq<char>, key: Seq<char>) -> int
    decreases cols.len(),
{
    if cols.len() == 0 {
        -1
    } else if cols[0].namespace@ == namespace && cols[0].key@ == key {
        0
    } else {
        let k = first_column(cols.drop_first(), namespace, key);
        if k < 0 {
            -1
        } else {
            k + 1
        }
    }
}

/// Picks the column that was just added, by its namespace and key, out of
/// the full column list.
pub fn find_column(columns: Vec<ColumnRow>, namespace: &str, key: &str) -> (r: Result<ColumnRow, String>)
    ensures
        ({
            let k = first_column(columns@, namespace@, key@);
            &&& r is Ok <==> k >= 0
            &&& r matches Ok(c) ==> c == columns@[k]
            &&& r matches Err(m) ==> m@ == "Column not found after insert"@
        }),
{
    let ghost orig = columns@;
    let mut rest = columns;
    let n = rest.len();
    let mut i: usize = 0;
    assert(orig.skip(0) =~= orig);
    while i < n
        invariant
            n == orig.len(),
            orig == columns@,
            i <= n,
            rest@ == orig.skip(i as int),
            first_column(orig, namespace@, key@) == if first_column(orig.skip(i as int), namespace@, key@) < 0 {
                -1
            } else {
                first_column(orig.skip(i as int), namespace@, key@) + i
            },
        decreases n - i,
    {
        assert(orig.skip(i as int).drop_first() =~= orig.skip(i + 1));
        let c = rest.remove(0);
        assert(c == orig[i as int]);
        assert(rest@ =~= orig.skip(i + 1));
        if same_text(c.namespace.as_str(), namespace) && same_text(c.key.as_str(), key) {
            assert(orig.skip(i as int)[0] == c);
            assert(first_column(orig.skip(i as int), namespace@, key@) == 0);
            return Ok(c);
        }
        i = i + 1;
    }
    assert(orig.skip(i as int) =~= Seq::<ColumnRow>::empty());
    let m = "Column not found after insert".to_owned();
    Err(m)
}

/// The error returned when a path is not a directory.
pub fn not_a_directory(path: &str) -> (r: String)
    ensures
        r@ == "Not a directory: "@ + path@,
{
    concat_str("Not a directory: ", path)
}

/// The error returned when the database fails.
pub fn db_error(detail: &str) -> (r: String)
    ensures
        r@ == "DB error: "@ + detail@,
{
    concat_str("DB error: ", detail)
}

/// The error returned when a directory's entries cannot be listed.
pub fn cannot_read_directory(detail: &str) -> (r: String)
    ensures
        r@ == "Cannot read directory: "@ + detail@,
{
    concat_str("Cannot read directory: ", detail)
}

/// The error returned when recording a file in the index fails.
pub fn db_upsert_error(detail: &str) -> (r: String)
    ensures
        r@ == "DB upsert error: "@ + detail@,
{
    concat_str("DB upsert error: ", detail)
}

/// The error returned when the index cannot record a rename.
pub fn db_rename_error(detail: &str) -> (r: String)
    ensures
        r@ == "DB rename error: "@ + detail@,
{
    concat_str("DB rename error: ", detail)
}

/// The error returned when the index cannot forget a deleted file.
pub fn db_delete_error(detail: &str) -> (r: String)
    ensures
        r@ == "DB delete error: "@ + detail@,
{
    concat_str("DB delete error: ", detail)
}

/// Where a file moved or copied into `destination` ends up: the directory
/// joined with the file's name; a path without a file name is refused.
pub fn move_target(path: &str, destination: &str) -> (r: Result<String, String>)
    ensures
        r is Ok <==> file_name_of(path@) is Some,
        r matches Ok(t) ==> t@ == joined_path(destination@, file_name_of(path@)->0),
        r matches Err(m) ==> m@ == "Cannot get filename from "@ + path@,
{
    match path_file_name(path) {
        Some(name) => Ok(path_join(destination, name.as_str())),
        None => Err(concat_str("Cannot get filename from ", path)),
    }
}

/// A successful file operation, with the paths it produced if any.
pub fn file_op_done(paths: Option<Vec<String>>) -> (r: FileOpResultOutput)
    ensures
        r.success,
        r.message is None,
        r.paths == paths,
{
    FileOpResultOutput { success: true, message: None, paths }
}

} // verus!
