use nomen::db::rows::{
    decode_column_row, decode_file_row, decode_indexed_file, decode_metadata_entry, decode_metadata_row,
    decode_user_version, decode_view_row, enqueue_write_params, folder_prefix, upsert_file_params,
    upsert_metadata_params, Cell,
};
use nomen::db::schema::{needs_migration, schema_statements, sql_statements, user_version_statement};

fn t(s: &str) -> Cell {
    Cell::Text(s.to_string())
}

#[test]
fn file_row_defaults() {
    let cells = vec![Cell::Integer(4), t("/a/b.txt"), t("b.txt"), Cell::Null, Cell::Integer(32), Cell::Null, Cell::Null, Cell::Real];
    let f = decode_file_row(&cells).unwrap();
    assert_eq!(f.id, 4);
    assert_eq!(f.path, "/a/b.txt");
    assert_eq!(f.filename, "b.txt");
    assert_eq!(f.extension, None);
    assert_eq!(f.size_bytes, Some(32));
    assert_eq!(f.mtime, 0);
    assert_eq!(f.file_kind, "other");
    assert_eq!(f.thumbnail_path, None);
    assert_eq!(f.metadata.entries().len(), 0);
    let mut short = cells;
    short.pop();
    assert!(decode_file_row(&short).is_none());
}

#[test]
fn metadata_entries_are_qualified() {
    let (k, v) = decode_metadata_entry(&vec![t("EXIF"), t("Make"), t("Canon")]).unwrap();
    assert_eq!(k, "EXIF:Make");
    assert_eq!(v.as_deref(), Some("Canon"));
    let (k, v) = decode_metadata_entry(&vec![Cell::Null, t("K"), Cell::Integer(3)]).unwrap();
    assert_eq!(k, ":K");
    assert_eq!(v, None);
    assert!(decode_metadata_entry(&vec![t("A"), t("B")]).is_none());
}

#[test]
fn metadata_row_defaults() {
    let m = decode_metadata_row(&vec![Cell::Integer(1), Cell::Integer(2), t("XMP"), t("Title"), Cell::Null, Cell::Null, Cell::Integer(9)]).unwrap();
    assert_eq!((m.id, m.file_id, m.updated_at), (1, 2, 9));
    assert_eq!(m.data_type, "text");
    assert_eq!(m.value, None);
}

#[test]
fn view_and_column_defaults() {
    let v = decode_view_row(&vec![Cell::Integer(1), t("Photos"), Cell::Null, Cell::Integer(5), Cell::Null]).unwrap();
    assert_eq!(v.columns_json, "[]");
    assert_eq!(v.updated_at, 0);
    let c = decode_column_row(&vec![Cell::Integer(3), t("Make"), t("EXIF"), t("Make"), Cell::Null, Cell::Null, Cell::Null, Cell::Integer(0), Cell::Null, Cell::Integer(7)]).unwrap();
    assert_eq!(c.data_type, "text");
    assert_eq!(c.write_dest, "embedded_xmp");
    assert_eq!(c.width_px, 160);
    assert!(!c.is_sortable);
    assert!(c.is_editable);
    assert_eq!(c.created_at, 7);
}

#[test]
fn indexed_file_and_version() {
    let f = decode_indexed_file(&vec![Cell::Integer(1), Cell::Integer(1234), Cell::Null]).unwrap();
    assert_eq!(f.mtime, 1234);
    assert_eq!(f.inode, None);
    assert_eq!(decode_user_version(&None), Some(0));
    assert_eq!(decode_user_version(&Some(vec![Cell::Integer(2)])), Some(2));
    assert_eq!(decode_user_version(&Some(vec![])), None);
    assert!(needs_migration(0));
    assert!(needs_migration(1));
    assert!(!needs_migration(2));
    assert_eq!(user_version_statement(), "PRAGMA user_version = 2");
}

#[test]
fn folder_prefix_ends_with_slash() {
    assert_eq!(folder_prefix("/home/u"), "/home/u/");
    assert_eq!(folder_prefix("/home/u/"), "/home/u/");
    assert_eq!(folder_prefix(""), "/");
}

#[test]
fn optional_parameters_are_empty_text() {
    let p = upsert_file_params("/a/b.txt", "b.txt", &Some("txt".to_string()), Some(32), 1234, None, "document", -5678);
    assert_eq!(p, vec!["/a/b.txt", "b.txt", "txt", "32", "1234", "", "document", "-5678"]);
    let p = upsert_file_params("/a/d", "d", &None, None, i64::MIN, Some(i64::MAX), "folder", 0);
    assert_eq!(p, vec!["/a/d", "d", "", "", "-9223372036854775808", "9223372036854775807", "folder", "0"]);
    let p = upsert_metadata_params(7, "EXIF", "Make", &None, 10);
    assert_eq!(p, vec!["7", "EXIF", "Make", "", "10"]);
    let p = enqueue_write_params(7, "XMP", "Title", &Some("old".to_string()), &None, 11);
    assert_eq!(p, vec!["7", "XMP", "Title", "old", "", "11"]);
}

#[test]
fn schema_statements_create_every_table() {
    let stmts = schema_statements();
    for table in ["files", "metadata", "columns", "views", "folder_views", "write_queue"] {
        let head = format!("CREATE TABLE IF NOT EXISTS {table} (");
        assert!(stmts.iter().any(|s| s.starts_with(&head)), "{table}");
    }
    assert!(stmts.iter().all(|s| !s.is_empty() && s.trim() == s));
    assert_eq!(stmts.len(), 14);
}

#[test]
fn script_split_drops_empty_statements() {
    assert_eq!(sql_statements(" a ; ;\n b;"), vec!["a".to_string(), "b".to_string()]);
    assert_eq!(sql_statements(""), Vec::<String>::new());
}

#[test]
fn empty_text_binds_like_null() {
    let with_empty = upsert_metadata_params(1, "XMP", "Title", &Some(String::new()), 2);
    let with_none = upsert_metadata_params(1, "XMP", "Title", &None, 2);
    assert_eq!(with_empty, with_none);
    let with_text = upsert_metadata_params(1, "XMP", "Title", &Some("t".to_string()), 2);
    assert_ne!(with_text, with_none);
}
