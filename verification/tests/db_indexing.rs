use nomen::db::indexer::{
    classify_file_kind_pub, entry_record, needs_extraction, split_namespace_key, tag_rows, EntryFacts,
    IndexProgress,
};
use nomen::db::rows::IndexedFile;
use nomen::db::watcher::{
    plan_watch_event, watcher_init_error, watcher_watch_error, WatchAction, WatchEventKind,
};
use nomen::meta_map::MetadataMap;
use nomen::paths::{extension, file_name_or_empty, name_extension, reveal_fallback};

#[test]
fn classify_by_lowercased_extension() {
    assert_eq!(classify_file_kind_pub("/p/photo.JPG", false), "image");
    assert_eq!(classify_file_kind_pub("/p/song.Flac", false), "audio");
    assert_eq!(classify_file_kind_pub("/p/clip.ts", false), "video");
    assert_eq!(classify_file_kind_pub("/p/notes.md", false), "document");
    assert_eq!(classify_file_kind_pub("/p/archive.zip", false), "other");
    assert_eq!(classify_file_kind_pub("/p/Makefile", false), "other");
    assert_eq!(classify_file_kind_pub("/p/.jpg", false), "other");
    assert_eq!(classify_file_kind_pub("/p/photos.jpg", true), "folder");
    assert_eq!(classify_file_kind_pub("/p/x.tar.GZ", false), "other");
}

#[test]
fn extensions_follow_the_file_name() {
    assert_eq!(name_extension("a.b.c").as_deref(), Some("c"));
    assert_eq!(name_extension("a.").as_deref(), Some(""));
    assert_eq!(name_extension(".bashrc"), None);
    assert_eq!(name_extension("plain"), None);
    assert_eq!(extension("/dir.d/file").as_deref(), None);
    assert_eq!(extension("/dir/file.TXT").as_deref(), Some("TXT"));
    assert_eq!(extension("/dir/.."), None);
    assert_eq!(file_name_or_empty("/dir/a.txt"), "a.txt");
    assert_eq!(file_name_or_empty("/"), "");
}

#[test]
fn entry_records() {
    let r = entry_record(EntryFacts {
        path: "/p/IMG_1.HEIC".to_string(),
        file_name: "IMG_1.HEIC".to_string(),
        is_dir: false,
        len: 2048,
        mtime_ms: 99,
        inode: Some(12),
    });
    assert_eq!(r.extension.as_deref(), Some("heic"));
    assert_eq!(r.size_bytes, Some(2048));
    assert_eq!(r.file_kind, "image");
    assert_eq!((r.mtime, r.inode), (99, Some(12)));
    let d = entry_record(EntryFacts {
        path: "/p/sub.jpg".to_string(),
        file_name: "sub.jpg".to_string(),
        is_dir: true,
        len: 4096,
        mtime_ms: 1,
        inode: None,
    });
    assert_eq!(d.extension, None);
    assert_eq!(d.size_bytes, None);
    assert_eq!(d.file_kind, "folder");
    assert_eq!(d.filename, "sub.jpg");
}

#[test]
fn extraction_only_for_new_or_changed_files() {
    let known = Some(IndexedFile { mtime: 10, inode: Some(5) });
    assert!(!needs_extraction(true, &None, 10, Some(5)));
    assert!(needs_extraction(false, &None, 10, Some(5)));
    assert!(!needs_extraction(false, &known, 10, Some(5)));
    assert!(needs_extraction(false, &known, 11, Some(5)));
    assert!(needs_extraction(false, &known, 10, Some(6)));
    assert!(needs_extraction(false, &known, 10, None));
}

#[test]
fn namespace_split_at_first_colon() {
    assert_eq!(split_namespace_key("EXIF:Make"), ("EXIF", "Make"));
    assert_eq!(split_namespace_key("XMP:dc:title"), ("XMP", "dc:title"));
    assert_eq!(split_namespace_key("FileName"), ("system", "FileName"));
    assert_eq!(split_namespace_key(":x"), ("", "x"));
}

#[test]
fn tag_rows_follow_insertions() {
    let mut m = MetadataMap::new();
    m.insert("EXIF:Make".to_string(), Some("Canon".to_string()));
    m.insert("Comment".to_string(), None);
    let rows = tag_rows(&m);
    assert_eq!(rows.len(), 2);
    assert_eq!((rows[0].namespace.as_str(), rows[0].key.as_str()), ("EXIF", "Make"));
    assert_eq!(rows[0].value.as_deref(), Some("Canon"));
    assert_eq!((rows[1].namespace.as_str(), rows[1].key.as_str()), ("system", "Comment"));
    assert_eq!(rows[1].value, None);
}

#[test]
fn progress_events() {
    let s = IndexProgress::scanning("/p", 3);
    assert_eq!((s.total, s.indexed, s.phase.as_str()), (3, 0, "scanning"));
    let e = IndexProgress::extracting("/p", 3, 2);
    assert_eq!((e.total, e.indexed, e.phase.as_str()), (3, 2, "extracting"));
    let c = IndexProgress::complete("/p", 3);
    assert_eq!((c.total, c.indexed, c.phase.as_str(), c.folder_path.as_str()), (3, 3, "complete", "/p"));
}

#[test]
fn watch_events_become_index_actions() {
    let paths = vec!["/p/a.jpg".to_string(), "/p/b.jpg".to_string()];
    let acts = plan_watch_event(&WatchEventKind::ModifyData, &paths);
    assert!(matches!(&acts[..], [WatchAction::Reindex(a), WatchAction::Reindex(b)] if a == "/p/a.jpg" && b == "/p/b.jpg"));
    let acts = plan_watch_event(&WatchEventKind::RemoveAny, &paths);
    assert!(matches!(&acts[..], [WatchAction::Forget(a), WatchAction::Forget(_)] if a == "/p/a.jpg"));
    let acts = plan_watch_event(&WatchEventKind::RenameBoth, &paths);
    match &acts[..] {
        [WatchAction::Rename { old_path, new_path, new_filename }] => {
            assert_eq!(old_path, "/p/a.jpg");
            assert_eq!(new_path, "/p/b.jpg");
            assert_eq!(new_filename, "b.jpg");
        }
        _ => panic!("one rename expected"),
    }
    assert!(plan_watch_event(&WatchEventKind::RenameBoth, &paths[..1].to_vec()).is_empty());
    assert!(plan_watch_event(&WatchEventKind::Other, &paths).is_empty());
}

#[test]
fn progress_counts_run_from_none_to_all() {
    let total = 4;
    let mut seen = vec![IndexProgress::scanning("/p", total).indexed];
    for idx in 0..total {
        let e = IndexProgress::after_entry("/p", total, idx);
        assert_eq!((e.total, e.phase.as_str(), e.folder_path.as_str()), (4, "extracting", "/p"));
        seen.push(e.indexed);
    }
    seen.push(IndexProgress::complete("/p", total).indexed);
    assert_eq!(seen, vec![0, 1, 2, 3, 4, 4]);
}

#[test]
fn uppercase_extensions_classify_like_lowercase() {
    for (lower, upper) in [("a.jpg", "A.JPG"), ("b.mp4", "B.MP4"), ("c.pdf", "C.PDF"), ("d.xyz", "D.XYZ")] {
        assert_eq!(classify_file_kind_pub(lower, false), classify_file_kind_pub(upper, false));
    }
}

#[test]
fn watcher_error_texts() {
    assert_eq!(watcher_init_error("no inotify"), "Watcher init error: no inotify");
    assert_eq!(watcher_watch_error("gone"), "Watcher watch error: gone");
}

#[test]
fn reveal_falls_back_to_the_parent_directory() {
    for p in ["/p/a.jpg", "/p/sub/", "a.jpg", "/", ""] {
        let expected = std::path::Path::new(p)
            .parent()
            .map(|q| q.to_string_lossy().to_string())
            .unwrap_or_else(|| p.to_string());
        assert_eq!(reveal_fallback(p), expected, "{p:?}");
    }
    assert_eq!(reveal_fallback("/p/a.jpg"), "/p");
    assert_eq!(reveal_fallback("/"), "/");
}
