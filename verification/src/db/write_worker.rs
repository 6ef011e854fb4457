//! The decisions of the write-back worker: queued writes are batched by file
//! (one ExifTool call per file), and each batch is settled as complete or
//! failed from what ExifTool reported.
use vstd::prelude::*;
use crate::db::rows::{
    cell_string, cell_text, int_or, integer_or, qualified_key, qualify,
    string_or, text_or, Cell,
};
use crate::exiftool::write::{MetadataWrite, WriteResult};
use crate::text::{copy_opt, opt_view};

verus! {

/// A pending write row as returned by the database.
pub struct PendingRow {
    pub id: i64,
    pub file_id: i64,
    pub file_path: String,
    pub namespace: String,
    pub key: String,
    pub new_value: Option<String>,
}

/// Reads `id, file_id, path, namespace, key, new_value` of a queued write.
pub fn decode_pending_row(cells: &Vec<Cell>) -> (r: Option<PendingRow>)
    ensures
        r is Some <==> cells.len() >= 6,
        r matches Some(p) ==> {
            &&& p.id == int_or(cells@[0], 0)
            &&& p.file_id == int_or(cells@[1], 0)
            &&& p.file_path@ == text_or(cells@[2], ""@)
            &&& p.namespace@ == text_or(cells@[3], ""@)
            &&& p.key@ == text_or(cells@[4], ""@)
            &&& opt_view(p.new_value) == cell_text(cells@[5])
        },
{
    if cells.len() < 6 {
        return None;
    }
    Some(
        PendingRow {
            id: integer_or(&cells[0], 0),
            file_id: integer_or(&cells[1], 0),
            file_path: string_or(&cells[2], ""),
            namespace: string_or(&cells[3], ""),
            key: string_or(&cells[4], ""),
            new_value: cell_string(&cells[5]),
        },
    )
}

/// The pending rows of one file.
pub struct PendingGroup {
    pub path: String,
    pub rows: Vec<PendingRow>,
}

/// Groups by path, with the rows of each group in queue order.
pub type Grouping = Seq<(Seq<char>, Seq<PendingRow>)>;

/// The index of the group for path `p`, or -1 when there is none.
pub open spec fn find_group(gs: Grouping, p: Seq<char>) -> int
    decreases gs.len(),
{
    if gs.len() == 0 {
        -1
    } else if gs.last().0 == p {
        gs.len() - 1
    } else {
        find_group(gs.drop_last(), p)
    }
}

/// The rows grouped by file path: groups in the order in which their paths
/// first occur, each holding its rows in queue order.
pub open spec fn grouped(rows: Seq<PendingRow>) -> Grouping
    decreases rows.len(),
{
    if rows.len() == 0 {
        seq![]
    } else {
        let gs = grouped(rows.drop_last());
        let r = rows.last();
        let k = find_group(gs, r.file_path@);
        if k < 0 {
            gs.push((r.file_path@, seq![r]))
        } else {
            gs.update(k, (gs[k].0, gs[k].1.push(r)))
        }
    }
}

/// The groups of a vector of pending groups, by their views.
pub open spec fn groups_view(gs: Seq<PendingGroup>) -> Grouping {
    gs.map_values(|g: PendingGroup| (g.path@, g.rows@))
}

proof fn lemma_find_group_bounds(gs: Grouping, p: Seq<char>)
    ensures
        -1 <= find_group(gs, p) < gs.len(),
        find_group(gs, p) >= 0 ==> gs[find_group(gs, p)].0 == p,
        find_group(gs, p) < 0 ==> forall|i: int| 0 <= i < gs.len() ==> (#[trigger] gs[i]).0 != p,
    decreases gs.len(),
{
    if gs.len() > 0 && gs.last().0 != p {
        let front = gs.drop_last();
        lemma_find_group_bounds(front, p);
        assert forall|i: int| 0 <= i < gs.len() && find_group(gs, p) < 0 implies (
        #[trigger] gs[i]).0 != p by {
            if i < front.len() {
                assert(gs[i] == front[i]);
            }
        }
    }
}

proof fn lemma_find_group_at(gs: Grouping, p: Seq<char>, k: int)
    requires
        0 <= k < gs.len(),
        gs[k].0 == p,
        forall|j: int| k < j < gs.len() ==> (#[trigger] gs[j]).0 != p,
    ensures
        find_group(gs, p) == k,
    decreases gs.len(),
{
    if k < gs.len() - 1 {
        let front = gs.drop_last();
        assert forall|j: int| k < j < front.len() implies (#[trigger] front[j]).0 != p by {
            assert(front[j] == gs[j]);
        }
        lemma_find_group_at(front, p, k);
    }
}

proof fn lemma_find_group_none(gs: Grouping, p: Seq<char>)
    requires
        forall|j: int| 0 <= j < gs.len() ==> (#[trigger] gs[j]).0 != p,
    ensures
        find_group(gs, p) == -1,
    decreases gs.len(),
{
    if gs.len() > 0 {
        let front = gs.drop_last();
        assert forall|j: int| 0 <= j < front.len() implies (#[trigger] front[j]).0 != p by {
            assert(front[j] == gs[j]);
        }
        lemma_find_group_none(front, p);
    }
}

/// Groups the pending rows by file path, so that each file gets one
/// ExifTool call.
pub fn group_pending(rows: Vec<PendingRow>) -> (r: Vec<PendingGroup>)
    ensures
        groups_view(r@) == grouped(rows@),
{
    let ghost orig = rows@;
    let mut rest = rows;
    let mut groups: Vec<PendingGroup> = Vec::new();
    let mut i: usize = 0;
    let n = rest.len();
    assert(orig.take(0) =~= Seq::<PendingRow>::empty());
    assert(groups_view(groups@) =~= Seq::<(Seq<char>, Seq<PendingRow>)>::empty());
    assert(orig.skip(0) =~= orig);
    while i < n
        invariant
            n == orig.len(),
            i <= n,
            rest@ == orig.skip(i as int),
            groups_view(groups@) == grouped(orig.take(i as int)),
        decreases n - i,
    {
        let ghost gs = groups_view(groups@);
        assert(orig.take(i + 1).drop_last() =~= orig.take(i as int));
        assert(orig.take(i + 1).last() == orig[i as int]);
        let row = rest.remove(0);
        assert(rest@ =~= orig.skip(i + 1));
        let mut j: usize = groups.len();
        while j > 0 && groups[j - 1].path != row.file_path
            invariant
                j <= groups.len(),
                gs == groups_view(groups@),
                forall|t: int| j <= t < groups.len() ==> (#[trigger] gs[t]).0 != row.file_path@,
            decreases j,
        {
            j = j - 1;
        }
        if j > 0 {
            proof {
                lemma_find_group_at(gs, row.file_path@, j - 1);
            }
            let mut g = groups.remove(j - 1);
            g.rows.push(row);
            groups.insert(j - 1, g);
            assert(groups_view(groups@) =~= gs.update(j - 1, (gs[j - 1].0, gs[j - 1].1.push(orig[i as int]))));
        } else {
            proof {
                lemma_find_group_none(gs, row.file_path@);
            }
            let path = row.file_path.clone();
            let mut v: Vec<PendingRow> = Vec::new();
            v.push(row);
            groups.push(PendingGroup { path, rows: v });
            assert(groups_view(groups@) =~= gs.push((orig[i as int].file_path@, seq![orig[i as int]])));
        }
        i = i + 1;
    }
    assert(orig.take(n as int) =~= orig);
    groups
}

// ─── Laws of the grouping ──────────────────────────────────────────────────

/// Whether `p` is the path of some row.
pub open spec fn has_path(rows: Seq<PendingRow>, p: Seq<char>) -> bool {
    exists|i: int| 0 <= i < rows.len() && (#[trigger] rows[i]).file_path@ == p
}

/// The test "this row belongs to the file at `p`".
pub open spec fn on_path(p: Seq<char>) -> spec_fn(PendingRow) -> bool {
    |x: PendingRow| x.file_path@ == p
}

/// Batching gives one group per distinct file: no two groups share a path,
/// every group holds at least one row, and every row's path has a group.
pub proof fn lemma_one_group_per_file(rows: Seq<PendingRow>)
    ensures
        forall|i: int, j: int|
            0 <= i < j < grouped(rows).len() ==> (#[trigger] grouped(rows)[i]).0 != (
            #[trigger] grouped(rows)[j]).0,
        forall|i: int| 0 <= i < grouped(rows).len() ==> (#[trigger] grouped(rows)[i]).1.len() > 0,
        forall|p: Seq<char>| #[trigger] has_path(rows, p) <==> find_group(grouped(rows), p) >= 0,
    decreases rows.len(),
{
    if rows.len() > 0 {
        let front = rows.drop_last();
        lemma_one_group_per_file(front);
        let gs = grouped(front);
        let r = rows.last();
        lemma_find_group_bounds(gs, r.file_path@);
        let k = find_group(gs, r.file_path@);
        let ng = grouped(rows);
        assert forall|m: int| 0 <= m < gs.len() implies (#[trigger] ng[m]).0 == gs[m].0 by {}
        assert forall|p: Seq<char>| #[trigger] has_path(rows, p) <==> find_group(ng, p) >= 0 by {
            lemma_find_group_bounds(gs, p);
            lemma_find_group_bounds(ng, p);
            if has_path(rows, p) {
                let w = choose|w: int| 0 <= w < rows.len() && (#[trigger] rows[w]).file_path@ == p;
                if w < front.len() {
                    assert(front[w] == rows[w]);
                    assert(has_path(front, p));
                    let m = find_group(gs, p);
                    assert(ng[m].0 == p);
                } else {
                    if k < 0 {
                        assert(ng[ng.len() - 1].0 == p);
                    } else {
                        assert(ng[k].0 == p);
                    }
                }
            }
            if find_group(ng, p) >= 0 {
                let m = find_group(ng, p);
                if m < gs.len() {
                    assert(gs[m].0 == p);
                    assert(find_group(gs, p) >= 0);
                    assert(has_path(front, p));
                    let w = choose|w: int| 0 <= w < front.len() && (#[trigger] front[w]).file_path@ == p;
                    assert(rows[w] == front[w]);
                } else {
                    assert(rows[rows.len() - 1].file_path@ == p);
                }
            }
        }
    }
}

/// Each group holds exactly the rows of its file, in queue order: the
/// batches partition the queue.
pub proof fn lemma_group_is_rows_of_its_file(rows: Seq<PendingRow>)
    ensures
        forall|i: int|
            0 <= i < grouped(rows).len() ==> (#[trigger] grouped(rows)[i]).1 == rows.filter(
                on_path(grouped(rows)[i].0),
            ),
    decreases rows.len(),
{
    reveal(Seq::filter);
    if rows.len() > 0 {
        let front = rows.drop_last();
        lemma_group_is_rows_of_its_file(front);
        lemma_one_group_per_file(front);
        let gs = grouped(front);
        let r = rows.last();
        lemma_find_group_bounds(gs, r.file_path@);
        let k = find_group(gs, r.file_path@);
        let ng = grouped(rows);
        assert forall|i: int| 0 <= i < ng.len() implies (#[trigger] ng[i]).1 == rows.filter(
            on_path(ng[i].0),
        ) by {
            let p = ng[i].0;
            let f = on_path(p);
            assert(rows.filter(f) == if f(r) {
                front.filter(f).push(r)
            } else {
                front.filter(f)
            });
            if i < gs.len() {
                assert(gs[i].0 == p);
                assert(gs[i].1 == front.filter(f));
                if i == k {
                    assert(ng[i].1 =~= front.filter(f).push(r));
                } else {
                    if f(r) {
                        assert(find_group(gs, r.file_path@) >= 0);
                        assert(gs[k].0 == r.file_path@);
                        assert(gs[i].0 == r.file_path@);
                    }
                }
            } else {
                // a new group: no earlier row has its path
                assert(k < 0);
                assert(p == r.file_path@);
                assert(!has_path(front, p));
                assert(front.filter(f).len() == 0) by {
                    if front.filter(f).len() > 0 {
                        let e = front.filter(f)[0];
                        broadcast use vstd::seq_lib::group_filter_ensures;
                        front.lemma_filter_contains_rev(f, e);
                        assert(f(e));
                        assert(front.contains(e));
                        let w = choose|w: int| 0 <= w < front.len() && front[w] == e;
                        assert(front[w].file_path@ == p);
                    }
                }
                assert(ng[i].1 =~= front.filter(f).push(r));
            }
        }
    }
}

/// The writes for one file: one tag write per row, tagged `namespace:key`.
pub fn group_writes(group: &PendingGroup) -> (r: Vec<MetadataWrite>)
    ensures
        r.len() == group.rows.len(),
        forall|i: int|
            0 <= i < r.len() ==> (#[trigger] r@[i]).tag@ == qualified_key(
                group.rows@[i].namespace@,
                group.rows@[i].key@,
            ) && opt_view(r@[i].value) == opt_view(group.rows@[i].new_value),
{
    let mut out: Vec<MetadataWrite> = Vec::new();
    let mut i: usize = 0;
    while i < group.rows.len()
        invariant
            i <= group.rows.len(),
            out.len() == i,
            forall|k: int|
                0 <= k < i ==> (#[trigger] out@[k]).tag@ == qualified_key(
                    group.rows@[k].namespace@,
                    group.rows@[k].key@,
                ) && opt_view(out@[k].value) == opt_view(group.rows@[k].new_value),
        decreases group.rows.len() - i,
    {
        let row = &group.rows[i];
        let tag = qualify(row.namespace.as_str(), row.key.as_str());
        let value = copy_opt(&row.new_value);
        out.push(MetadataWrite { tag, value });
        i = i + 1;
    }
    out
}

/// The queue ids of a file's rows, in order.
pub fn group_ids(group: &PendingGroup) -> (r: Vec<i64>)
    ensures
        r.len() == group.rows.len(),
        forall|i: int| 0 <= i < r.len() ==> #[trigger] r@[i] == group.rows@[i].id,
{
    let mut out: Vec<i64> = Vec::new();
    let mut i: usize = 0;
    while i < group.rows.len()
        invariant
            i <= group.rows.len(),
            out.len() == i,
            forall|k: int| 0 <= k < i ==> #[trigger] out@[k] == group.rows@[k].id,
        decreases group.rows.len() - i,
    {
        out.push(group.rows[i].id);
        i = i + 1;
    }
    out
}

/// The file whose metadata is read again after a successful write: that of
/// the group's first row.
pub fn refresh_file_id(group: &PendingGroup) -> (r: i64)
    requires
        group.rows.len() > 0,
    ensures
        r == group.rows@[0].file_id,
{
    group.rows[0].file_id
}

/// One failure reported with a write event.
pub struct WriteEventError {
    pub path: String,
    pub message: String,
}

/// The event that reports how the writes to one file ended.
pub struct WriteEvent {
    pub success: bool,
    pub path: String,
    pub affected_files: usize,
    pub failed_files: usize,
    pub errors: Vec<WriteEventError>,
}

/// How a file's batch of queued writes is settled.
pub struct WriteSettlement {
    /// Whether the rows are marked complete (otherwise failed).
    pub complete: bool,
    /// The error recorded with failed rows.
    pub error_msg: String,
    /// The event reported to the grid.
    pub event: WriteEvent,
}

/// The message recorded for a failed write: ExifTool's report line, or the
/// error of the call.
pub open spec fn failure_message(result: Result<WriteResult, String>) -> Seq<char> {
    match result {
        Ok(w) => w.message@,
        Err(e) => e@,
    }
}

/// Whether a write succeeded.
pub open spec fn write_succeeded(result: Result<WriteResult, String>) -> bool {
    result matches Ok(w) && w.success
}

/// Settles a file's batch: a successful write completes every row; a write
/// that ExifTool rejected, or a call that failed, fails every row with the
/// reason, and the event carries that reason, so no failure goes unreported.
pub fn settle_write(path: &str, result: &Result<WriteResult, String>) -> (r: WriteSettlement)
    ensures
        r.complete == write_succeeded(*result),
        r.event.success == r.complete,
        r.event.path@ == path@,
        r.complete ==> r.event.affected_files == 1 && r.event.failed_files == 0
            && r.event.errors.len() == 0,
        !r.complete ==> {
            &&& r.error_msg@ == failure_message(*result)
            &&& r.event.affected_files == 0
            &&& r.event.failed_files == 1
            &&& r.event.errors.len() == 1
            &&& r.event.errors@[0].path@ == path@
            &&& r.event.errors@[0].message@ == failure_message(*result)
        },
{
    let succeeded = match result {
        Ok(w) => w.success,
        Err(_) => false,
    };
    let p = path.to_owned();
    if succeeded {
        WriteSettlement {
            complete: true,
            error_msg: String::new(),
            event: WriteEvent {
                success: true,
                path: p,
                affected_files: 1,
                failed_files: 0,
                errors: Vec::new(),
            },
        }
    } else {
        let msg = match result {
            Ok(w) => w.message.clone(),
            Err(e) => e.clone(),
        };
        let mut errors: Vec<WriteEventError> = Vec::new();
        errors.push(WriteEventError { path: p.clone(), message: msg.clone() });
        WriteSettlement {
            complete: false,
            error_msg: msg,
            event: WriteEvent { success: false, path: p, affected_files: 0, failed_files: 1, errors },
        }
    }
}

} // verus!
