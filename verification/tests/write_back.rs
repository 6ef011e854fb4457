use nomen::commands::{
    cannot_read_directory, column_width, db_delete_error, db_error, db_rename_error, db_upsert_error,
    expand_bulk_write, file_op_done, find_column, move_target, not_a_directory, write_result_output,
    BulkWriteInput, MetadataWriteInput,
};
use nomen::db::rows::ColumnRow;
use nomen::db::write_worker::{group_ids, group_pending, group_writes, refresh_file_id, settle_write, PendingRow};
use nomen::exiftool::write::WriteResult;

fn row(id: i64, file_id: i64, path: &str, key: &str, value: Option<&str>) -> PendingRow {
    PendingRow {
        id,
        file_id,
        file_path: path.to_string(),
        namespace: "XMP".to_string(),
        key: key.to_string(),
        new_value: value.map(|v| v.to_string()),
    }
}

#[test]
fn twenty_writes_across_five_files_make_five_batches() {
    let mut rows = Vec::new();
    for i in 0..20 {
        let f = i % 5;
        rows.push(row(i, f, &format!("/p/f{f}.jpg"), &format!("K{i}"), Some("v")));
    }
    let groups = group_pending(rows);
    assert_eq!(groups.len(), 5);
    for (g, grp) in groups.iter().enumerate() {
        assert_eq!(grp.path, format!("/p/f{g}.jpg"));
        let ids = group_ids(grp);
        assert_eq!(ids, vec![g as i64, g as i64 + 5, g as i64 + 10, g as i64 + 15]);
        assert_eq!(refresh_file_id(grp), g as i64);
    }
}

#[test]
fn batch_writes_are_namespace_qualified() {
    let groups = group_pending(vec![row(1, 9, "/a.jpg", "Title", Some("T")), row(2, 9, "/a.jpg", "Rating", None)]);
    assert_eq!(groups.len(), 1);
    let writes = group_writes(&groups[0]);
    assert_eq!(writes[0].tag, "XMP:Title");
    assert_eq!(writes[0].value.as_deref(), Some("T"));
    assert_eq!(writes[1].tag, "XMP:Rating");
    assert_eq!(writes[1].value, None);
    assert!(group_pending(Vec::new()).is_empty());
}

#[test]
fn settlements() {
    let ok = settle_write("/a.jpg", &Ok(WriteResult { success: true, message: "1 image files updated".to_string() }));
    assert!(ok.complete);
    assert!(ok.event.success);
    assert_eq!((ok.event.affected_files, ok.event.failed_files, ok.event.errors.len()), (1, 0, 0));
    let rejected = settle_write("/a.jpg", &Ok(WriteResult { success: false, message: "Error: bad".to_string() }));
    assert!(!rejected.complete);
    assert_eq!(rejected.error_msg, "Error: bad");
    assert_eq!((rejected.event.affected_files, rejected.event.failed_files), (0, 1));
    assert_eq!(rejected.event.errors[0].path, "/a.jpg");
    assert_eq!(rejected.event.errors[0].message, "Error: bad");
    let failed = settle_write("/b.jpg", &Err("ExifTool daemon not available".to_string()));
    assert!(!failed.complete);
    assert!(!failed.event.success);
    assert_eq!(failed.error_msg, "ExifTool daemon not available");
    assert_eq!(failed.event.path, "/b.jpg");
}

#[test]
fn bulk_write_expands_per_file() {
    let b = BulkWriteInput {
        file_ids: vec![3, 1, 2],
        namespace: "IPTC".to_string(),
        key: "CopyrightNotice".to_string(),
        value: Some("(c) 2026 Test User".to_string()),
    };
    let w = expand_bulk_write(&b);
    assert_eq!(w.iter().map(|x| x.file_id).collect::<Vec<_>>(), vec![3, 1, 2]);
    assert!(w.iter().all(|x| x.old_value.is_none() && x.new_value.as_deref() == Some("(c) 2026 Test User")));
    assert!(w.iter().all(|x| x.namespace == "IPTC" && x.key == "CopyrightNotice"));
}

#[test]
fn write_summary_counts_failures() {
    let mk = |id: i64| MetadataWriteInput {
        file_id: id,
        namespace: "XMP".to_string(),
        key: "Title".to_string(),
        old_value: None,
        new_value: Some("x".to_string()),
    };
    let writes = vec![mk(1), mk(2), mk(3)];
    let r = write_result_output(&writes, &vec![None, Some("locked".to_string()), None]);
    assert!(!r.success);
    assert_eq!((r.affected_files, r.failed_files), (2, 1));
    assert_eq!(r.errors[0].file_id, 2);
    assert_eq!(r.errors[0].path, "");
    assert_eq!(r.errors[0].message, "locked");
    let r = write_result_output(&writes, &vec![None, None, None]);
    assert!(r.success);
    assert_eq!((r.affected_files, r.failed_files), (3, 0));
}

fn col(id: i64, ns: &str, key: &str) -> ColumnRow {
    ColumnRow {
        id,
        label: key.to_string(),
        namespace: ns.to_string(),
        key: key.to_string(),
        data_type: "text".to_string(),
        write_dest: "embedded_xmp".to_string(),
        width_px: 160,
        is_sortable: true,
        is_editable: true,
        created_at: 0,
    }
}

#[test]
fn added_column_is_found_by_namespace_and_key() {
    let cols = vec![col(1, "EXIF", "Make"), col(2, "XMP", "Title"), col(3, "EXIF", "Title")];
    assert_eq!(find_column(cols, "EXIF", "Title").ok().map(|c| c.id), Some(3));
    match find_column(vec![col(1, "EXIF", "Make")], "XMP", "Make") {
        Err(m) => assert_eq!(m, "Column not found after insert"),
        Ok(_) => panic!(),
    }
    assert_eq!(column_width(None), 160);
    assert_eq!(column_width(Some(90)), 90);
}

#[test]
fn messages_and_file_op_results() {
    assert_eq!(not_a_directory("/x"), "Not a directory: /x");
    assert_eq!(db_error("locked"), "DB error: locked");
    let r = file_op_done(Some(vec!["/d/a".to_string()]));
    assert!(r.success && r.message.is_none());
    assert_eq!(r.paths, Some(vec!["/d/a".to_string()]));
}

#[test]
fn move_targets() {
    assert_eq!(move_target("/p/a.jpg", "/dest").unwrap(), "/dest/a.jpg");
    assert_eq!(move_target("/p/a.jpg", "/dest/").unwrap(), "/dest/a.jpg");
    assert_eq!(move_target("/p/sub/", "/dest").unwrap(), "/dest/sub");
    assert_eq!(move_target("/p/..", "/dest"), Err("Cannot get filename from /p/..".to_string()));
}

#[test]
fn index_error_texts() {
    assert_eq!(cannot_read_directory("denied"), "Cannot read directory: denied");
    assert_eq!(db_upsert_error("locked"), "DB upsert error: locked");
    assert_eq!(db_rename_error("busy"), "DB rename error: busy");
    assert_eq!(db_delete_error("busy"), "DB delete error: busy");
}
