//! The decisions of folder indexing: what kind of file an entry is, the row
//! recorded for it, whether ExifTool must read it again, how its tags are
//! filed under namespaces, and the progress reported along the way.
use vstd::prelude::*;
use vstd::string::StrSliceExecFns;
use crate::db::rows::IndexedFile;
use crate::exiftool::extract::ExifData;
use crate::meta_map::MetadataMap;
use crate::paths::{extension, path_extension};
use crate::text::{
    ascii_lower, ascii_lowered, ascii_upper, ascii_uppered, chars_of, is_ascii_text, lower_text,
    opt_view, same_text, to_lowercase,
};

verus! {

/// Extensions of image files.
pub open spec fn is_image_ext(e: Seq<char>) -> bool {
    e == "jpg"@ || e == "jpeg"@ || e == "png"@ || e == "gif"@ || e == "webp"@ || e == "bmp"@ || e
        == "tiff"@ || e == "tif"@ || e == "svg"@ || e == "heic"@ || e == "heif"@ || e == "avif"@
        || e == "raw"@ || e == "cr2"@ || e == "cr3"@ || e == "nef"@ || e == "arw"@ || e == "dng"@
        || e == "orf"@ || e == "rw2"@
}

/// Extensions of audio files.
pub open spec fn is_audio_ext(e: Seq<char>) -> bool {
    e == "mp3"@ || e == "flac"@ || e == "wav"@ || e == "aac"@ || e == "ogg"@ || e == "opus"@ || e
        == "m4a"@ || e == "wma"@ || e == "aiff"@ || e == "alac"@
}

/// Extensions of video files.
pub open spec fn is_video_ext(e: Seq<char>) -> bool {
    e == "mp4"@ || e == "mkv"@ || e == "avi"@ || e == "mov"@ || e == "wmv"@ || e == "flv"@ || e
        == "webm"@ || e == "m4v"@ || e == "ts"@
}

/// Extensions of documents.
pub open spec fn is_document_ext(e: Seq<char>) -> bool {
    e == "pdf"@ || e == "doc"@ || e == "docx"@ || e == "xls"@ || e == "xlsx"@ || e == "ppt"@ || e
        == "pptx"@ || e == "odt"@ || e == "ods"@ || e == "odp"@ || e == "txt"@ || e == "md"@ || e
        == "rtf"@ || e == "csv"@ || e == "json"@ || e == "xml"@ || e == "html"@ || e == "htm"@
        || e == "tex"@ || e == "epub"@
}

/// The kind of a file with the (lowercased) extension `e`.
pub open spec fn kind_of_extension(e: Option<Seq<char>>) -> Seq<char> {
    match e {
        Some(x) => if is_image_ext(x) {
            "image"@
        } else if is_audio_ext(x) {
            "audio"@
        } else if is_video_ext(x) {
            "video"@
        } else if is_document_ext(x) {
            "document"@
        } else {
            "other"@
        },
        None => "other"@,
    }
}

/// The kind of a file does not depend on the case of an ASCII extension:
/// `PHOTO.JPG` is an image as `photo.jpg` is.
pub proof fn lemma_extension_case_ignored(e: Seq<char>)
    requires
        is_ascii_text(e),
    ensures
        kind_of_extension(Some(lower_text(ascii_uppered(e)))) == kind_of_extension(
            Some(lower_text(e)),
        ),
{
    let u = ascii_uppered(e);
    assert(is_ascii_text(u)) by {
        assert forall|i: int| 0 <= i < u.len() implies (#[trigger] u[i] as u32) < 128 by {
            assert(u[i] == ascii_upper(e[i]));
            assert((e[i] as u32) < 128);
        }
    }
    assert(ascii_lowered(u) =~= ascii_lowered(e)) by {
        assert forall|i: int| 0 <= i < e.len() implies #[trigger] ascii_lowered(u)[i]
            == ascii_lowered(e)[i] by {
            assert(ascii_lower(ascii_upper(e[i])) == ascii_lower(e[i]));
        }
    }
}

/// The lowercased extension of a path.
pub open spec fn lower_extension(path: Seq<char>) -> Option<Seq<char>> {
    match path_extension(path) {
        Some(e) => Some(lower_text(e)),
        None => None,
    }
}

/// The kind recorded for a path: `folder` for directories, otherwise
/// decided by the lowercased extension.
pub open spec fn file_kind(path: Seq<char>, is_dir: bool) -> Seq<char> {
    if is_dir {
        "folder"@
    } else {
        kind_of_extension(lower_extension(path))
    }
}

/// Exactly the directories are classified as folders.
pub proof fn lemma_folder_iff_directory(path: Seq<char>, is_dir: bool)
    ensures
        (file_kind(path, is_dir) == "folder"@) == is_dir,
{
    reveal_strlit("folder");
    reveal_strlit("image");
    reveal_strlit("audio");
    reveal_strlit("video");
    reveal_strlit("document");
    reveal_strlit("other");
    if !is_dir {
        let k = file_kind(path, is_dir);
        assert(k.len() != 6 || k[0] != 'f');
    }
}

fn one_of_images(e: &str) -> (r: bool)
    ensures
        r == is_image_ext(e@),
{
    same_text(e, "jpg") || same_text(e, "jpeg") || same_text(e, "png") || same_text(e, "gif")
        || same_text(e, "webp") || same_text(e, "bmp") || same_text(e, "tiff") || same_text(e, "tif")
        || same_text(e, "svg") || same_text(e, "heic") || same_text(e, "heif") || same_text(e, "avif")
        || same_text(e, "raw") || same_text(e, "cr2") || same_text(e, "cr3") || same_text(e, "nef")
        || same_text(e, "arw") || same_text(e, "dng") || same_text(e, "orf") || same_text(e, "rw2")
}

fn one_of_audio(e: &str) -> (r: bool)
    ensures
        r == is_audio_ext(e@),
{
    same_text(e, "mp3") || same_text(e, "flac") || same_text(e, "wav") || same_text(e, "aac")
        || same_text(e, "ogg") || same_text(e, "opus") || same_text(e, "m4a") || same_text(e, "wma")
        || same_text(e, "aiff") || same_text(e, "alac")
}

fn one_of_video(e: &str) -> (r: bool)
    ensures
        r == is_video_ext(e@),
{
    same_text(e, "mp4") || same_text(e, "mkv") || same_text(e, "avi") || same_text(e, "mov")
        || same_text(e, "wmv") || same_text(e, "flv") || same_text(e, "webm") || same_text(e, "m4v")
        || same_text(e, "ts")
}

fn one_of_documents(e: &str) -> (r: bool)
    ensures
        r == is_document_ext(e@),
{
    same_text(e, "pdf") || same_text(e, "doc") || same_text(e, "docx") || same_text(e, "xls")
        || same_text(e, "xlsx") || same_text(e, "ppt") || same_text(e, "pptx") || same_text(e, "odt")
        || same_text(e, "ods") || same_text(e, "odp") || same_text(e, "txt") || same_text(e, "md")
        || same_text(e, "rtf") || same_text(e, "csv") || same_text(e, "json") || same_text(e, "xml")
        || same_text(e, "html") || same_text(e, "htm") || same_text(e, "tex") || same_text(e, "epub")
}

/// The lowercased extension of a path.
pub fn lowercase_extension(path: &str) -> (r: Option<String>)
    ensures
        opt_view(r) == lower_extension(path@),
{
    match extension(path) {
        Some(e) => Some(to_lowercase(e.as_str())),
        None => None,
    }
}

/// The kind recorded for a file: `folder`, `image`, `audio`, `video`,
/// `document` or `other`.
pub fn classify_file_kind_pub(path: &str, is_dir: bool) -> (r: &'static str)
    ensures
        r@ == file_kind(path@, is_dir),
{
    if is_dir {
        return "folder";
    }
    match lowercase_extension(path) {
        Some(e) => {
            let e = e.as_str();
            if one_of_images(e) {
                "image"
            } else if one_of_audio(e) {
                "audio"
            } else if one_of_video(e) {
                "video"
            } else if one_of_documents(e) {
                "document"
            } else {
                "other"
            }
        },
        None => "other",
    }
}

/// What the file system tells about a directory entry.
pub struct EntryFacts {
    /// The entry's path, as text.
    pub path: String,
    /// The entry's file name, as text.
    pub file_name: String,
    pub is_dir: bool,
    /// The size in bytes.
    pub len: u64,
    /// The modification time, in milliseconds since the Unix epoch.
    pub mtime_ms: i64,
    pub inode: Option<i64>,
}

/// The row recorded in the index for a directory entry.
pub struct EntryRecord {
    pub path: String,
    pub filename: String,
    /// The lowercased extension; none for directories.
    pub extension: Option<String>,
    /// The size; none for directories.
    pub size_bytes: Option<i64>,
    pub mtime: i64,
    pub inode: Option<i64>,
    pub file_kind: &'static str,
}

/// The row recorded for a directory entry.
pub fn entry_record(facts: EntryFacts) -> (r: EntryRecord)
    ensures
        r.path@ == facts.path@,
        r.filename@ == facts.file_name@,
        opt_view(r.extension) == if facts.is_dir {
            None
        } else {
            lower_extension(facts.path@)
        },
        r.size_bytes == if facts.is_dir {
            None
        } else {
            Some(facts.len as i64)
        },
        r.mtime == facts.mtime_ms,
        r.inode == facts.inode,
        r.file_kind@ == file_kind(facts.path@, facts.is_dir),
{
    let extension = if facts.is_dir {
        None
    } else {
        lowercase_extension(facts.path.as_str())
    };
    let size_bytes = if facts.is_dir {
        None
    } else {
        Some(facts.len as i64)
    };
    let file_kind = classify_file_kind_pub(facts.path.as_str(), facts.is_dir);
    EntryRecord {
        path: facts.path,
        filename: facts.file_name,
        extension,
        size_bytes,
        mtime: facts.mtime_ms,
        inode: facts.inode,
        file_kind,
    }
}

/// Whether ExifTool must read a file: never for directories; always for a
/// file not indexed yet; otherwise when its mtime or inode changed.
pub open spec fn must_extract(is_dir: bool, existing: Option<IndexedFile>, mtime: i64, inode: Option<i64>) -> bool {
    !is_dir && match existing {
        None => true,
        Some(row) => row.mtime != mtime || row.inode != inode,
    }
}

/// Decides whether ExifTool must read a file.
pub fn needs_extraction(is_dir: bool, existing: &Option<IndexedFile>, mtime: i64, inode: Option<i64>) -> (r: bool)
    ensures
        r == must_extract(is_dir, *existing, mtime, inode),
{
    !is_dir && match existing {
        None => true,
        Some(row) => row.mtime != mtime || row.inode != inode,
    }
}

/// The index of the first `:` in `s`, or -1 when there is none.
pub open spec fn first_colon(s: Seq<char>) -> int
    decreases s.len(),
{
    if s.len() == 0 {
        -1
    } else if s[0] == ':' {
        0
    } else {
        let k = first_colon(s.drop_first());
        if k < 0 {
            -1
        } else {
            k + 1
        }
    }
}

/// The namespace and key of a tag name: split at the first `:`, or the
/// `system` namespace when there is no `:`.
pub open spec fn namespace_and_key(s: Seq<char>) -> (Seq<char>, Seq<char>) {
    let k = first_colon(s);
    if k < 0 {
        ("system"@, s)
    } else {
        (s.take(k), s.skip(k + 1))
    }
}

/// Splits a `Namespace:Key` tag name.
pub fn split_namespace_key<'a>(key: &'a str) -> (r: (&'a str, &'a str))
    ensures
        (r.0@, r.1@) == namespace_and_key(key@),
{
    let cs = chars_of(key);
    let n = cs.len();
    let mut i: usize = 0;
    assert(cs@.skip(0) =~= key@);
    while i < n && cs[i] != ':'
        invariant
            i <= n,
            n == cs.len(),
            cs@ == key@,
            first_colon(key@) == if first_colon(cs@.skip(i as int)) < 0 {
                -1
            } else {
                first_colon(cs@.skip(i as int)) + i
            },
        decreases n - i,
    {
        assert(cs@.skip(i as int).drop_first() =~= cs@.skip(i + 1));
        i = i + 1;
    }
    if i < n {
        assert(cs@.skip(i as int)[0] == ':');
        let ns = key.substring_char(0, i);
        let k = key.substring_char(i + 1, n);
        assert(key@.take(i as int) =~= key@.subrange(0, i as int));
        assert(key@.skip(i + 1) =~= key@.subrange(i + 1, n as int));
        (ns, k)
    } else {
        assert(cs@.skip(i as int) =~= Seq::<char>::empty());
        ("system", key)
    }
}

/// A metadata row to upsert for a file: namespace, key and value.
pub struct TagRow {
    pub namespace: String,
    pub key: String,
    pub value: Option<String>,
}

/// The metadata rows that ExifTool's tags for a file become: one per tag,
/// in insertion order, filed under the tag's namespace and key.
pub fn tag_rows(tags: &MetadataMap) -> (r: Vec<TagRow>)
    ensures
        r.len() == tags.insertions().len(),
        forall|i: int|
            0 <= i < r.len() ==> {
                &&& (#[trigger] r@[i]).namespace@ == namespace_and_key(tags.insertions()[i].0@).0
                &&& r@[i].key@ == namespace_and_key(tags.insertions()[i].0@).1
                &&& opt_view(r@[i].value) == opt_view(tags.insertions()[i].1)
            },
{
    let entries = tags.entries();
    let mut out: Vec<TagRow> = Vec::new();
    let mut i: usize = 0;
    while i < entries.len()
        invariant
            i <= entries.len(),
            entries@ == tags.insertions(),
            out.len() == i,
            forall|k: int|
                0 <= k < i ==> {
                    &&& (#[trigger] out@[k]).namespace@ == namespace_and_key(tags.insertions()[k].0@).0
                    &&& out@[k].key@ == namespace_and_key(tags.insertions()[k].0@).1
                    &&& opt_view(out@[k].value) == opt_view(tags.insertions()[k].1)
                },
        decreases entries.len() - i,
    {
        let (ns, k) = split_namespace_key(entries[i].0.as_str());
        let value = match &entries[i].1 {
            Some(v) => Some(v.clone()),
            None => None,
        };
        let ghost prev = out@;
        out.push(TagRow { namespace: ns.to_owned(), key: k.to_owned(), value });
        proof {
            assert(forall|j: int| 0 <= j < i ==> out@[j] == prev[j]);
            assert(out@[i as int].namespace@ =~= ns@);
            assert(out@[i as int].key@ =~= k@);
        }
        i = i + 1;
    }
    out
}

/// The metadata rows of the tags that ExifTool read for a file.
pub fn exif_tag_rows(exif: &ExifData) -> (r: Vec<TagRow>)
    ensures
        r.len() == exif.tags.insertions().len(),
        forall|i: int|
            0 <= i < r.len() ==> {
                &&& (#[trigger] r@[i]).namespace@ == namespace_and_key(exif.tags.insertions()[i].0@).0
                &&& r@[i].key@ == namespace_and_key(exif.tags.insertions()[i].0@).1
                &&& opt_view(r@[i].value) == opt_view(exif.tags.insertions()[i].1)
            },
{
    tag_rows(&exif.tags)
}

/// Progress event payload emitted during a scan.
pub struct IndexProgress {
    pub folder_path: String,
    pub total: usize,
    pub indexed: usize,
    pub phase: String,
}

impl IndexProgress {
    /// The event that opens a scan of `total` entries.
    pub fn scanning(folder_path: &str, total: usize) -> (r: Self)
        ensures
            r.folder_path@ == folder_path@,
            r.total == total,
            r.indexed == 0,
            r.phase@ == "scanning"@,
    {
        let phase = "scanning".to_owned();
        IndexProgress { folder_path: folder_path.to_owned(), total, indexed: 0, phase }
    }

    /// The event after `indexed` entries have been handled.
    pub fn extracting(folder_path: &str, total: usize, indexed: usize) -> (r: Self)
        ensures
            r.folder_path@ == folder_path@,
            r.total == total,
            r.indexed == indexed,
            r.phase@ == "extracting"@,
    {
        let phase = "extracting".to_owned();
        IndexProgress { folder_path: folder_path.to_owned(), total, indexed, phase }
    }

    /// The event after the entry at position `idx` (counted from zero) of a
    /// scan of `total` entries has been handled: `idx + 1` entries count as
    /// indexed, which is more than the opening event's none and no more than
    /// the closing event's `total`.
    pub fn after_entry(folder_path: &str, total: usize, idx: usize) -> (r: Self)
        requires
            idx < total,
        ensures
            r.folder_path@ == folder_path@,
            r.total == total,
            r.indexed == idx + 1,
            0 < r.indexed <= r.total,
            r.phase@ == "extracting"@,
    {
        Self::extracting(folder_path, total, idx + 1)
    }

    /// The event that closes a scan: every entry counts as indexed.
    pub fn complete(folder_path: &str, total: usize) -> (r: Self)
        ensures
            r.folder_path@ == folder_path@,
            r.total == total,
            r.indexed == total,
            r.phase@ == "complete"@,
    {
        let phase = "complete".to_owned();
        IndexProgress { folder_path: folder_path.to_owned(), total, indexed: total, phase }
    }
}

/// No audio, video or document extension is an image extension.
#[verifier::rlimit(50)]
proof fn lemma_not_image()
    ensures
        !is_image_ext("mp3"@),
        !is_image_ext("flac"@),
        !is_image_ext("wav"@),
        !is_image_ext("aac"@),
        !is_image_ext("ogg"@),
        !is_image_ext("opus"@),
        !is_image_ext("m4a"@),
        !is_image_ext("wma"@),
        !is_image_ext("aiff"@),
        !is_image_ext("alac"@),
        !is_image_ext("mp4"@),
        !is_image_ext("mkv"@),
        !is_image_ext("avi"@),
        !is_image_ext("mov"@),
        !is_image_ext("wmv"@),
        !is_image_ext("flv"@),
        !is_image_ext("webm"@),
        !is_image_ext("m4v"@),
        !is_image_ext("ts"@),
        !is_image_ext("pdf"@),
        !is_image_ext("doc"@),
        !is_image_ext("docx"@),
        !is_image_ext("xls"@),
        !is_image_ext("xlsx"@),
        !is_image_ext("ppt"@),
        !is_image_ext("pptx"@),
        !is_image_ext("odt"@),
        !is_image_ext("ods"@),
        !is_image_ext("odp"@),
        !is_image_ext("txt"@),
        !is_image_ext("md"@),
        !is_image_ext("rtf"@),
        !is_image_ext("csv"@),
        !is_image_ext("json"@),
        !is_image_ext("xml"@),
        !is_image_ext("html"@),
        !is_image_ext("htm"@),
        !is_image_ext("tex"@),
        !is_image_ext("epub"@),
{
    reveal_strlit("jpg");
    assert("jpg"@.len() == 3 && "jpg"@[0] == 'j' && "jpg"@[1] == 'p' && "jpg"@[2] == 'g');
    reveal_strlit("jpeg");
    assert("jpeg"@.len() == 4 && "jpeg"@[0] == 'j' && "jpeg"@[1] == 'p' && "jpeg"@[2] == 'e' && "jpeg"@[3] == 'g');
    reveal_strlit("png");
    assert("png"@.len() == 3 && "png"@[0] == 'p' && "png"@[1] == 'n' && "png"@[2] == 'g');
    reveal_strlit("gif");
    assert("gif"@.len() == 3 && "gif"@[0] == 'g' && "gif"@[1] == 'i' && "gif"@[2] == 'f');
    reveal_strlit("webp");
    assert("webp"@.len() == 4 && "webp"@[0] == 'w' && "webp"@[1] == 'e' && "webp"@[2] == 'b' && "webp"@[3] == 'p');
    reveal_strlit("bmp");
    assert("bmp"@.len() == 3 && "bmp"@[0] == 'b' && "bmp"@[1] == 'm' && "bmp"@[2] == 'p');
    reveal_strlit("tiff");
    assert("tiff"@.len() == 4 && "tiff"@[0] == 't' && "tiff"@[1] == 'i' && "tiff"@[2] == 'f' && "tiff"@[3] == 'f');
    reveal_strlit("tif");
    assert("tif"@.len() == 3 && "tif"@[0] == 't' && "tif"@[1] == 'i' && "tif"@[2] == 'f');
    reveal_strlit("svg");
    assert("svg"@.len() == 3 && "svg"@[0] == 's' && "svg"@[1] == 'v' && "svg"@[2] == 'g');
    reveal_strlit("heic");
    assert("heic"@.len() == 4 && "heic"@[0] == 'h' && "heic"@[1] == 'e' && "heic"@[2] == 'i' && "heic"@[3] == 'c');
    reveal_strlit("heif");
    assert("heif"@.len() == 4 && "heif"@[0] == 'h' && "heif"@[1] == 'e' && "heif"@[2] == 'i' && "heif"@[3] == 'f');
    reveal_strlit("avif");
    assert("avif"@.len() == 4 && "avif"@[0] == 'a' && "avif"@[1] == 'v' && "avif"@[2] == 'i' && "avif"@[3] == 'f');
    reveal_strlit("raw");
    assert("raw"@.len() == 3 && "raw"@[0] == 'r' && "raw"@[1] == 'a' && "raw"@[2] == 'w');
    reveal_strlit("cr2");
    assert("cr2"@.len() == 3 && "cr2"@[0] == 'c' && "cr2"@[1] == 'r' && "cr2"@[2] == '2');
    reveal_strlit("cr3");
    assert("cr3"@.len() == 3 && "cr3"@[0] == 'c' && "cr3"@[1] == 'r' && "cr3"@[2] == '3');
    reveal_strlit("nef");
    assert("nef"@.len() == 3 && "nef"@[0] == 'n' && "nef"@[1] == 'e' && "nef"@[2] == 'f');
    reveal_strlit("arw");
    assert("arw"@.len() == 3 && "arw"@[0] == 'a' && "arw"@[1] == 'r' && "arw"@[2] == 'w');
    reveal_strlit("dng");
    assert("dng"@.len() == 3 && "dng"@[0] == 'd' && "dng"@[1] == 'n' && "dng"@[2] == 'g');
    reveal_strlit("orf");
    assert("orf"@.len() == 3 && "orf"@[0] == 'o' && "orf"@[1] == 'r' && "orf"@[2] == 'f');
    reveal_strlit("rw2");
    assert("rw2"@.len() == 3 && "rw2"@[0] == 'r' && "rw2"@[1] == 'w' && "rw2"@[2] == '2');
    reveal_strlit("mp3");
    assert("mp3"@.len() == 3 && "mp3"@[0] == 'm' && "mp3"@[1] == 'p' && "mp3"@[2] == '3');
    reveal_strlit("flac");
    assert("flac"@.len() == 4 && "flac"@[0] == 'f' && "flac"@[1] == 'l' && "flac"@[2] == 'a' && "flac"@[3] == 'c');
    reveal_strlit("wav");
    assert("wav"@.len() == 3 && "wav"@[0] == 'w' && "wav"@[1] == 'a' && "wav"@[2] == 'v');
    reveal_strlit("aac");
    assert("aac"@.len() == 3 && "aac"@[0] == 'a' && "aac"@[1] == 'a' && "aac"@[2] == 'c');
    reveal_strlit("ogg");
    assert("ogg"@.len() == 3 && "ogg"@[0] == 'o' && "ogg"@[1] == 'g' && "ogg"@[2] == 'g');
    reveal_strlit("opus");
    assert("opus"@.len() == 4 && "opus"@[0] == 'o' && "opus"@[1] == 'p' && "opus"@[2] == 'u' && "opus"@[3] == 's');
    reveal_strlit("m4a");
    assert("m4a"@.len() == 3 && "m4a"@[0] == 'm' && "m4a"@[1] == '4' && "m4a"@[2] == 'a');
    reveal_strlit("wma");
    assert("wma"@.len() == 3 && "wma"@[0] == 'w' && "wma"@[1] == 'm' && "wma"@[2] == 'a');
    reveal_strlit("aiff");
    assert("aiff"@.len() == 4 && "aiff"@[0] == 'a' && "aiff"@[1] == 'i' && "aiff"@[2] == 'f' && "aiff"@[3] == 'f');
    reveal_strlit("alac");
    assert("alac"@.len() == 4 && "alac"@[0] == 'a' && "alac"@[1] == 'l' && "alac"@[2] == 'a' && "alac"@[3] == 'c');
    reveal_strlit("mp4");
    assert("mp4"@.len() == 3 && "mp4"@[0] == 'm' && "mp4"@[1] == 'p' && "mp4"@[2] == '4');
    reveal_strlit("mkv");
    assert("mkv"@.len() == 3 && "mkv"@[0] == 'm' && "mkv"@[1] == 'k' && "mkv"@[2] == 'v');
    reveal_strlit("avi");
    assert("avi"@.len() == 3 && "avi"@[0] == 'a' && "avi"@[1] == 'v' && "avi"@[2] == 'i');
    reveal_strlit("mov");
    assert("mov"@.len() == 3 && "mov"@[0] == 'm' && "mov"@[1] == 'o' && "mov"@[2] == 'v');
    reveal_strlit("wmv");
    assert("wmv"@.len() == 3 && "wmv"@[0] == 'w' && "wmv"@[1] == 'm' && "wmv"@[2] == 'v');
    reveal_strlit("flv");
    assert("flv"@.len() == 3 && "flv"@[0] == 'f' && "flv"@[1] == 'l' && "flv"@[2] == 'v');
    reveal_strlit("webm");
    assert("webm"@.len() == 4 && "webm"@[0] == 'w' && "webm"@[1] == 'e' && "webm"@[2] == 'b' && "webm"@[3] == 'm');
    reveal_strlit("m4v");
    assert("m4v"@.len() == 3 && "m4v"@[0] == 'm' && "m4v"@[1] == '4' && "m4v"@[2] == 'v');
    reveal_strlit("ts");
    assert("ts"@.len() == 2 && "ts"@[0] == 't' && "ts"@[1] == 's');
    reveal_strlit("pdf");
    assert("pdf"@.len() == 3 && "pdf"@[0] == 'p' && "pdf"@[1] == 'd' && "pdf"@[2] == 'f');
    reveal_strlit("doc");
    assert("doc"@.len() == 3 && "doc"@[0] == 'd' && "doc"@[1] == 'o' && "doc"@[2] == 'c');
    reveal_strlit("docx");
    assert("docx"@.len() == 4 && "docx"@[0] == 'd' && "docx"@[1] == 'o' && "docx"@[2] == 'c' && "docx"@[3] == 'x');
    reveal_strlit("xls");
    assert("xls"@.len() == 3 && "xls"@[0] == 'x' && "xls"@[1] == 'l' && "xls"@[2] == 's');
    reveal_strlit("xlsx");
    assert("xlsx"@.len() == 4 && "xlsx"@[0] == 'x' && "xlsx"@[1] == 'l' && "xlsx"@[2] == 's' && "xlsx"@[3] == 'x');
    reveal_strlit("ppt");
    assert("ppt"@.len() == 3 && "ppt"@[0] == 'p' && "ppt"@[1] == 'p' && "ppt"@[2] == 't');
    reveal_strlit("pptx");
    assert("pptx"@.len() == 4 && "pptx"@[0] == 'p' && "pptx"@[1] == 'p' && "pptx"@[2] == 't' && "pptx"@[3] == 'x');
    reveal_strlit("odt");
    assert("odt"@.len() == 3 && "odt"@[0] == 'o' && "odt"@[1] == 'd' && "odt"@[2] == 't');
    reveal_strlit("ods");
    assert("ods"@.len() == 3 && "ods"@[0] == 'o' && "ods"@[1] == 'd' && "ods"@[2] == 's');
    reveal_strlit("odp");
    assert("odp"@.len() == 3 && "odp"@[0] == 'o' && "odp"@[1] == 'd' && "odp"@[2] == 'p');
    reveal_strlit("txt");
    assert("txt"@.len() == 3 && "txt"@[0] == 't' && "txt"@[1] == 'x' && "txt"@[2] == 't');
    reveal_strlit("md");
    assert("md"@.len() == 2 && "md"@[0] == 'm' && "md"@[1] == 'd');
    reveal_strlit("rtf");
    assert("rtf"@.len() == 3 && "rtf"@[0] == 'r' && "rtf"@[1] == 't' && "rtf"@[2] == 'f');
    reveal_strlit("csv");
    assert("csv"@.len() == 3 && "csv"@[0] == 'c' && "csv"@[1] == 's' && "csv"@[2] == 'v');
    reveal_strlit("json");
    assert("json"@.len() == 4 && "json"@[0] == 'j' && "json"@[1] == 's' && "json"@[2] == 'o' && "json"@[3] == 'n');
    reveal_strlit("xml");
    assert("xml"@.len() == 3 && "xml"@[0] == 'x' && "xml"@[1] == 'm' && "xml"@[2] == 'l');
    reveal_strlit("html");
    assert("html"@.len() == 4 && "html"@[0] == 'h' && "html"@[1] == 't' && "html"@[2] == 'm' && "html"@[3] == 'l');
    reveal_strlit("htm");
    assert("htm"@.len() == 3 && "htm"@[0] == 'h' && "htm"@[1] == 't' && "htm"@[2] == 'm');
    reveal_strlit("tex");
    assert("tex"@.len() == 3 && "tex"@[0] == 't' && "tex"@[1] == 'e' && "tex"@[2] == 'x');
    reveal_strlit("epub");
    assert("epub"@.len() == 4 && "epub"@[0] == 'e' && "epub"@[1] == 'p' && "epub"@[2] == 'u' && "epub"@[3] == 'b');
}

/// No video or document extension is an audio extension.
#[verifier::rlimit(50)]
proof fn lemma_not_audio()
    ensures
        !is_audio_ext("mp4"@),
        !is_audio_ext("mkv"@),
        !is_audio_ext("avi"@),
        !is_audio_ext("mov"@),
        !is_audio_ext("wmv"@),
        !is_audio_ext("flv"@),
        !is_audio_ext("webm"@),
        !is_audio_ext("m4v"@),
        !is_audio_ext("ts"@),
        !is_audio_ext("pdf"@),
        !is_audio_ext("doc"@),
        !is_audio_ext("docx"@),
        !is_audio_ext("xls"@),
        !is_audio_ext("xlsx"@),
        !is_audio_ext("ppt"@),
        !is_audio_ext("pptx"@),
        !is_audio_ext("odt"@),
        !is_audio_ext("ods"@),
        !is_audio_ext("odp"@),
        !is_audio_ext("txt"@),
        !is_audio_ext("md"@),
        !is_audio_ext("rtf"@),
        !is_audio_ext("csv"@),
        !is_audio_ext("json"@),
        !is_audio_ext("xml"@),
        !is_audio_ext("html"@),
        !is_audio_ext("htm"@),
        !is_audio_ext("tex"@),
        !is_audio_ext("epub"@),
{
    reveal_strlit("mp3");
    assert("mp3"@.len() == 3 && "mp3"@[0] == 'm' && "mp3"@[1] == 'p' && "mp3"@[2] == '3');
    reveal_strlit("flac");
    assert("flac"@.len() == 4 && "flac"@[0] == 'f' && "flac"@[1] == 'l' && "flac"@[2] == 'a' && "flac"@[3] == 'c');
    reveal_strlit("wav");
    assert("wav"@.len() == 3 && "wav"@[0] == 'w' && "wav"@[1] == 'a' && "wav"@[2] == 'v');
    reveal_strlit("aac");
    assert("aac"@.len() == 3 && "aac"@[0] == 'a' && "aac"@[1] == 'a' && "aac"@[2] == 'c');
    reveal_strlit("ogg");
    assert("ogg"@.len() == 3 && "ogg"@[0] == 'o' && "ogg"@[1] == 'g' && "ogg"@[2] == 'g');
    reveal_strlit("opus");
    assert("opus"@.len() == 4 && "opus"@[0] == 'o' && "opus"@[1] == 'p' && "opus"@[2] == 'u' && "opus"@[3] == 's');
    reveal_strlit("m4a");
    assert("m4a"@.len() == 3 && "m4a"@[0] == 'm' && "m4a"@[1] == '4' && "m4a"@[2] == 'a');
    reveal_strlit("wma");
    assert("wma"@.len() == 3 && "wma"@[0] == 'w' && "wma"@[1] == 'm' && "wma"@[2] == 'a');
    reveal_strlit("aiff");
    assert("aiff"@.len() == 4 && "aiff"@[0] == 'a' && "aiff"@[1] == 'i' && "aiff"@[2] == 'f' && "aiff"@[3] == 'f');
    reveal_strlit("alac");
    assert("alac"@.len() == 4 && "alac"@[0] == 'a' && "alac"@[1] == 'l' && "alac"@[2] == 'a' && "alac"@[3] == 'c');
    reveal_strlit("mp4");
    assert("mp4"@.len() == 3 && "mp4"@[0] == 'm' && "mp4"@[1] == 'p' && "mp4"@[2] == '4');
    reveal_strlit("mkv");
    assert("mkv"@.len() == 3 && "mkv"@[0] == 'm' && "mkv"@[1] == 'k' && "mkv"@[2] == 'v');
    reveal_strlit("avi");
    assert("avi"@.len() == 3 && "avi"@[0] == 'a' && "avi"@[1] == 'v' && "avi"@[2] == 'i');
    reveal_strlit("mov");
    assert("mov"@.len() == 3 && "mov"@[0] == 'm' && "mov"@[1] == 'o' && "mov"@[2] == 'v');
    reveal_strlit("wmv");
    assert("wmv"@.len() == 3 && "wmv"@[0] == 'w' && "wmv"@[1] == 'm' && "wmv"@[2] == 'v');
    reveal_strlit("flv");
    assert("flv"@.len() == 3 && "flv"@[0] == 'f' && "flv"@[1] == 'l' && "flv"@[2] == 'v');
    reveal_strlit("webm");
    assert("webm"@.len() == 4 && "webm"@[0] == 'w' && "webm"@[1] == 'e' && "webm"@[2] == 'b' && "webm"@[3] == 'm');
    reveal_strlit("m4v");
    assert("m4v"@.len() == 3 && "m4v"@[0] == 'm' && "m4v"@[1] == '4' && "m4v"@[2] == 'v');
    reveal_strlit("ts");
    assert("ts"@.len() == 2 && "ts"@[0] == 't' && "ts"@[1] == 's');
    reveal_strlit("pdf");
    assert("pdf"@.len() == 3 && "pdf"@[0] == 'p' && "pdf"@[1] == 'd' && "pdf"@[2] == 'f');
    reveal_strlit("doc");
    assert("doc"@.len() == 3 && "doc"@[0] == 'd' && "doc"@[1] == 'o' && "doc"@[2] == 'c');
    reveal_strlit("docx");
    assert("docx"@.len() == 4 && "docx"@[0] == 'd' && "docx"@[1] == 'o' && "docx"@[2] == 'c' && "docx"@[3] == 'x');
    reveal_strlit("xls");
    assert("xls"@.len() == 3 && "xls"@[0] == 'x' && "xls"@[1] == 'l' && "xls"@[2] == 's');
    reveal_strlit("xlsx");
    assert("xlsx"@.len() == 4 && "xlsx"@[0] == 'x' && "xlsx"@[1] == 'l' && "xlsx"@[2] == 's' && "xlsx"@[3] == 'x');
    reveal_strlit("ppt");
    assert("ppt"@.len() == 3 && "ppt"@[0] == 'p' && "ppt"@[1] == 'p' && "ppt"@[2] == 't');
    reveal_strlit("pptx");
    assert("pptx"@.len() == 4 && "pptx"@[0] == 'p' && "pptx"@[1] == 'p' && "pptx"@[2] == 't' && "pptx"@[3] == 'x');
    reveal_strlit("odt");
    assert("odt"@.len() == 3 && "odt"@[0] == 'o' && "odt"@[1] == 'd' && "odt"@[2] == 't');
    reveal_strlit("ods");
    assert("ods"@.len() == 3 && "ods"@[0] == 'o' && "ods"@[1] == 'd' && "ods"@[2] == 's');
    reveal_strlit("odp");
    assert("odp"@.len() == 3 && "odp"@[0] == 'o' && "odp"@[1] == 'd' && "odp"@[2] == 'p');
    reveal_strlit("txt");
    assert("txt"@.len() == 3 && "txt"@[0] == 't' && "txt"@[1] == 'x' && "txt"@[2] == 't');
    reveal_strlit("md");
    assert("md"@.len() == 2 && "md"@[0] == 'm' && "md"@[1] == 'd');
    reveal_strlit("rtf");
    assert("rtf"@.len() == 3 && "rtf"@[0] == 'r' && "rtf"@[1] == 't' && "rtf"@[2] == 'f');
    reveal_strlit("csv");
    assert("csv"@.len() == 3 && "csv"@[0] == 'c' && "csv"@[1] == 's' && "csv"@[2] == 'v');
    reveal_strlit("json");
    assert("json"@.len() == 4 && "json"@[0] == 'j' && "json"@[1] == 's' && "json"@[2] == 'o' && "json"@[3] == 'n');
    reveal_strlit("xml");
    assert("xml"@.len() == 3 && "xml"@[0] == 'x' && "xml"@[1] == 'm' && "xml"@[2] == 'l');
    reveal_strlit("html");
    assert("html"@.len() == 4 && "html"@[0] == 'h' && "html"@[1] == 't' && "html"@[2] == 'm' && "html"@[3] == 'l');
    reveal_strlit("htm");
    assert("htm"@.len() == 3 && "htm"@[0] == 'h' && "htm"@[1] == 't' && "htm"@[2] == 'm');
    reveal_strlit("tex");
    assert("tex"@.len() == 3 && "tex"@[0] == 't' && "tex"@[1] == 'e' && "tex"@[2] == 'x');
    reveal_strlit("epub");
    assert("epub"@.len() == 4 && "epub"@[0] == 'e' && "epub"@[1] == 'p' && "epub"@[2] == 'u' && "epub"@[3] == 'b');
}

/// No document extension is a video extension.
#[verifier::rlimit(50)]
proof fn lemma_not_video()
    ensures
        !is_video_ext("pdf"@),
        !is_video_ext("doc"@),
        !is_video_ext("docx"@),
        !is_video_ext("xls"@),
        !is_video_ext("xlsx"@),
        !is_video_ext("ppt"@),
        !is_video_ext("pptx"@),
        !is_video_ext("odt"@),
        !is_video_ext("ods"@),
        !is_video_ext("odp"@),
        !is_video_ext("txt"@),
        !is_video_ext("md"@),
        !is_video_ext("rtf"@),
        !is_video_ext("csv"@),
        !is_video_ext("json"@),
        !is_video_ext("xml"@),
        !is_video_ext("html"@),
        !is_video_ext("htm"@),
        !is_video_ext("tex"@),
        !is_video_ext("epub"@),
{
    reveal_strlit("mp4");
    assert("mp4"@.len() == 3 && "mp4"@[0] == 'm' && "mp4"@[1] == 'p' && "mp4"@[2] == '4');
    reveal_strlit("mkv");
    assert("mkv"@.len() == 3 && "mkv"@[0] == 'm' && "mkv"@[1] == 'k' && "mkv"@[2] == 'v');
    reveal_strlit("avi");
    assert("avi"@.len() == 3 && "avi"@[0] == 'a' && "avi"@[1] == 'v' && "avi"@[2] == 'i');
    reveal_strlit("mov");
    assert("mov"@.len() == 3 && "mov"@[0] == 'm' && "mov"@[1] == 'o' && "mov"@[2] == 'v');
    reveal_strlit("wmv");
    assert("wmv"@.len() == 3 && "wmv"@[0] == 'w' && "wmv"@[1] == 'm' && "wmv"@[2] == 'v');
    reveal_strlit("flv");
    assert("flv"@.len() == 3 && "flv"@[0] == 'f' && "flv"@[1] == 'l' && "flv"@[2] == 'v');
    reveal_strlit("webm");
    assert("webm"@.len() == 4 && "webm"@[0] == 'w' && "webm"@[1] == 'e' && "webm"@[2] == 'b' && "webm"@[3] == 'm');
    reveal_strlit("m4v");
    assert("m4v"@.len() == 3 && "m4v"@[0] == 'm' && "m4v"@[1] == '4' && "m4v"@[2] == 'v');
    reveal_strlit("ts");
    assert("ts"@.len() == 2 && "ts"@[0] == 't' && "ts"@[1] == 's');
    reveal_strlit("pdf");
    assert("pdf"@.len() == 3 && "pdf"@[0] == 'p' && "pdf"@[1] == 'd' && "pdf"@[2] == 'f');
    reveal_strlit("doc");
    assert("doc"@.len() == 3 && "doc"@[0] == 'd' && "doc"@[1] == 'o' && "doc"@[2] == 'c');
    reveal_strlit("docx");
    assert("docx"@.len() == 4 && "docx"@[0] == 'd' && "docx"@[1] == 'o' && "docx"@[2] == 'c' && "docx"@[3] == 'x');
    reveal_strlit("xls");
    assert("xls"@.len() == 3 && "xls"@[0] == 'x' && "xls"@[1] == 'l' && "xls"@[2] == 's');
    reveal_strlit("xlsx");
    assert("xlsx"@.len() == 4 && "xlsx"@[0] == 'x' && "xlsx"@[1] == 'l' && "xlsx"@[2] == 's' && "xlsx"@[3] == 'x');
    reveal_strlit("ppt");
    assert("ppt"@.len() == 3 && "ppt"@[0] == 'p' && "ppt"@[1] == 'p' && "ppt"@[2] == 't');
    reveal_strlit("pptx");
    assert("pptx"@.len() == 4 && "pptx"@[0] == 'p' && "pptx"@[1] == 'p' && "pptx"@[2] == 't' && "pptx"@[3] == 'x');
    reveal_strlit("odt");
    assert("odt"@.len() == 3 && "odt"@[0] == 'o' && "odt"@[1] == 'd' && "odt"@[2] == 't');
    reveal_strlit("ods");
    assert("ods"@.len() == 3 && "ods"@[0] == 'o' && "ods"@[1] == 'd' && "ods"@[2] == 's');
    reveal_strlit("odp");
    assert("odp"@.len() == 3 && "odp"@[0] == 'o' && "odp"@[1] == 'd' && "odp"@[2] == 'p');
    reveal_strlit("txt");
    assert("txt"@.len() == 3 && "txt"@[0] == 't' && "txt"@[1] == 'x' && "txt"@[2] == 't');
    reveal_strlit("md");
    assert("md"@.len() == 2 && "md"@[0] == 'm' && "md"@[1] == 'd');
    reveal_strlit("rtf");
    assert("rtf"@.len() == 3 && "rtf"@[0] == 'r' && "rtf"@[1] == 't' && "rtf"@[2] == 'f');
    reveal_strlit("csv");
    assert("csv"@.len() == 3 && "csv"@[0] == 'c' && "csv"@[1] == 's' && "csv"@[2] == 'v');
    reveal_strlit("json");
    assert("json"@.len() == 4 && "json"@[0] == 'j' && "json"@[1] == 's' && "json"@[2] == 'o' && "json"@[3] == 'n');
    reveal_strlit("xml");
    assert("xml"@.len() == 3 && "xml"@[0] == 'x' && "xml"@[1] == 'm' && "xml"@[2] == 'l');
    reveal_strlit("html");
    assert("html"@.len() == 4 && "html"@[0] == 'h' && "html"@[1] == 't' && "html"@[2] == 'm' && "html"@[3] == 'l');
    reveal_strlit("htm");
    assert("htm"@.len() == 3 && "htm"@[0] == 'h' && "htm"@[1] == 't' && "htm"@[2] == 'm');
    reveal_strlit("tex");
    assert("tex"@.len() == 3 && "tex"@[0] == 't' && "tex"@[1] == 'e' && "tex"@[2] == 'x');
    reveal_strlit("epub");
    assert("epub"@.len() == 4 && "epub"@[0] == 'e' && "epub"@[1] == 'p' && "epub"@[2] == 'u' && "epub"@[3] == 'b');
}

/// No extension belongs to two of the kind lists.
proof fn lemma_extension_lists_disjoint(e: Seq<char>)
    ensures
        is_audio_ext(e) || is_video_ext(e) || is_document_ext(e) ==> !is_image_ext(e),
        is_video_ext(e) || is_document_ext(e) ==> !is_audio_ext(e),
        is_document_ext(e) ==> !is_video_ext(e),
{
    lemma_not_image();
    lemma_not_audio();
    lemma_not_video();
}

/// A path whose extension, in any ASCII case, is one of jpg, jpeg, png, gif,
/// webp, bmp, tiff, tif, svg, heic, heif, avif, raw, cr2, cr3, nef, arw,
/// dng, orf or rw2 is an image, unless it is a directory.
pub proof fn lemma_image_kind(p: Seq<char>, x: Seq<char>)
    requires
        path_extension(p) == Some(x),
        is_ascii_text(x),
        ({
            let e = ascii_lowered(x);
            "rw2"@ == e || "orf"@ == e || "dng"@ == e || "arw"@ == e || "nef"@ == e
            || "cr3"@ == e || "cr2"@ == e || "raw"@ == e || "avif"@ == e || "heif"@ == e
            || "heic"@ == e || "svg"@ == e || "tif"@ == e || "tiff"@ == e || "bmp"@ == e
            || "webp"@ == e || "gif"@ == e || "png"@ == e || "jpeg"@ == e || "jpg"@ == e
        }),
    ensures
        file_kind(p, false) == "image"@,
        file_kind(p, true) == "folder"@,
{
}

/// A path whose extension, in any ASCII case, is one of mp3, flac, wav,
/// aac, ogg, opus, m4a, wma, aiff or alac is audio, unless it is a
/// directory.
pub proof fn lemma_audio_kind(p: Seq<char>, x: Seq<char>)
    requires
        path_extension(p) == Some(x),
        is_ascii_text(x),
        ({
            let e = ascii_lowered(x);
            "alac"@ == e || "aiff"@ == e || "wma"@ == e || "m4a"@ == e || "opus"@ == e
            || "ogg"@ == e || "aac"@ == e || "wav"@ == e || "flac"@ == e || "mp3"@ == e
        }),
    ensures
        file_kind(p, false) == "audio"@,
        file_kind(p, true) == "folder"@,
{
    lemma_extension_lists_disjoint(ascii_lowered(x));
}

/// A path whose extension, in any ASCII case, is one of mp4, mkv, avi, mov,
/// wmv, flv, webm, m4v or ts is a video, unless it is a directory.
pub proof fn lemma_video_kind(p: Seq<char>, x: Seq<char>)
    requires
        path_extension(p) == Some(x),
        is_ascii_text(x),
        ({
            let e = ascii_lowered(x);
            "ts"@ == e || "m4v"@ == e || "webm"@ == e || "flv"@ == e || "wmv"@ == e
            || "mov"@ == e || "avi"@ == e || "mkv"@ == e || "mp4"@ == e
        }),
    ensures
        file_kind(p, false) == "video"@,
        file_kind(p, true) == "folder"@,
{
    lemma_extension_lists_disjoint(ascii_lowered(x));
}

/// A path whose extension, in any ASCII case, is one of pdf, doc, docx, xls,
/// xlsx, ppt, pptx, odt, ods, odp, txt, md, rtf, csv, json, xml, html, htm,
/// tex or epub is a document, unless it is a directory.
pub proof fn lemma_document_kind(p: Seq<char>, x: Seq<char>)
    requires
        path_extension(p) == Some(x),
        is_ascii_text(x),
        ({
            let e = ascii_lowered(x);
            "epub"@ == e || "tex"@ == e || "htm"@ == e || "html"@ == e || "xml"@ == e
            || "json"@ == e || "csv"@ == e || "rtf"@ == e || "md"@ == e || "txt"@ == e
            || "odp"@ == e || "ods"@ == e || "odt"@ == e || "pptx"@ == e || "ppt"@ == e
            || "xlsx"@ == e || "xls"@ == e || "docx"@ == e || "doc"@ == e || "pdf"@ == e
        }),
    ensures
        file_kind(p, false) == "document"@,
        file_kind(p, true) == "folder"@,
{
    lemma_extension_lists_disjoint(ascii_lowered(x));
}

/// A path without an extension, or whose lowercased extension is on none
/// of the lists, is of kind `other`, unless it is a directory.
pub proof fn lemma_other_kind(p: Seq<char>)
    requires
        match lower_extension(p) {
            None => true,
            Some(e) => {
                "epub"@ != e && "tex"@ != e && "htm"@ != e && "html"@ != e
                && "xml"@ != e && "json"@ != e && "csv"@ != e && "rtf"@ != e
                && "md"@ != e && "txt"@ != e && "odp"@ != e && "ods"@ != e
                && "odt"@ != e && "pptx"@ != e && "ppt"@ != e && "xlsx"@ != e
                && "xls"@ != e && "docx"@ != e && "doc"@ != e && "pdf"@ != e
                && "ts"@ != e && "m4v"@ != e && "webm"@ != e && "flv"@ != e
                && "wmv"@ != e && "mov"@ != e && "avi"@ != e && "mkv"@ != e
                && "mp4"@ != e && "alac"@ != e && "aiff"@ != e && "wma"@ != e
                && "m4a"@ != e && "opus"@ != e && "ogg"@ != e && "aac"@ != e
                && "wav"@ != e && "flac"@ != e && "mp3"@ != e && "rw2"@ != e
                && "orf"@ != e && "dng"@ != e && "arw"@ != e && "nef"@ != e
                && "cr3"@ != e && "cr2"@ != e && "raw"@ != e && "avif"@ != e
                && "heif"@ != e && "heic"@ != e && "svg"@ != e && "tif"@ != e
                && "tiff"@ != e && "bmp"@ != e && "webp"@ != e && "gif"@ != e
                && "png"@ != e && "jpeg"@ != e && "jpg"@ != e
            },
        },
    ensures
        file_kind(p, false) == "other"@,
        file_kind(p, true) == "folder"@,
{
}

/// A directory already indexed is never read by ExifTool; a file is read
/// when it is not yet indexed, when its modification time differs from the
/// indexed one (later or earlier), or when its inode differs; and a file
/// whose time and inode are both unchanged is not read again.
pub proof fn lemma_change_detection(
    is_dir: bool,
    existing: Option<IndexedFile>,
    mtime: i64,
    inode: Option<i64>,
)
    ensures
        is_dir ==> !must_extract(is_dir, existing, mtime, inode),
        !is_dir && existing is None ==> must_extract(is_dir, existing, mtime, inode),
        !is_dir && existing is Some && existing->0.mtime < mtime ==> must_extract(
            is_dir,
            existing,
            mtime,
            inode,
        ),
        !is_dir && existing is Some && existing->0.mtime > mtime ==> must_extract(
            is_dir,
            existing,
            mtime,
            inode,
        ),
        !is_dir && existing is Some && existing->0.inode != inode ==> must_extract(
            is_dir,
            existing,
            mtime,
            inode,
        ),
        existing is Some && existing->0.mtime == mtime && existing->0.inode == inode ==> !must_extract(
            is_dir,
            existing,
            mtime,
            inode,
        ),
{
}

/// Splitting a tag name at its first colon: a name `ns:key` whose namespace
/// holds no colon splits into `ns` and `key` (the key may hold colons), and
/// a name without a colon is filed under `system` whole.
pub proof fn lemma_namespace_split(ns: Seq<char>, key: Seq<char>)
    ensures
        (forall|i: int| 0 <= i < ns.len() ==> ns[i] != ':') ==> namespace_and_key(ns + ":"@ + key)
            == (ns, key),
        (forall|i: int| 0 <= i < key.len() ==> key[i] != ':') ==> namespace_and_key(key) == (
        "system"@, key),
{
    reveal_strlit(":");
    if forall|i: int| 0 <= i < ns.len() ==> ns[i] != ':' {
        lemma_first_colon_after(ns, key);
        let s = ns + ":"@ + key;
        assert(s.take(ns.len() as int) =~= ns);
        assert(s.skip(ns.len() as int + 1) =~= key);
    }
    if forall|i: int| 0 <= i < key.len() ==> key[i] != ':' {
        lemma_no_colon(key);
    }
}

/// The first colon of `ns:key` is the one after `ns` when `ns` has none.
proof fn lemma_first_colon_after(ns: Seq<char>, key: Seq<char>)
    requires
        forall|i: int| 0 <= i < ns.len() ==> ns[i] != ':',
    ensures
        first_colon(ns + ":"@ + key) == ns.len(),
    decreases ns.len(),
{
    reveal_strlit(":");
    let s = ns + ":"@ + key;
    if ns.len() == 0 {
        assert(s[0] == ':');
    } else {
        assert(s[0] == ns[0]);
        let t = ns.drop_first();
        assert forall|i: int| 0 <= i < t.len() implies t[i] != ':' by {
            assert(t[i] == ns[i + 1]);
        }
        lemma_first_colon_after(t, key);
        assert(s.drop_first() =~= t + ":"@ + key);
    }
}

/// A text without a colon has none to split at.
proof fn lemma_no_colon(s: Seq<char>)
    requires
        forall|i: int| 0 <= i < s.len() ==> s[i] != ':',
    ensures
        first_colon(s) == -1,
    decreases s.len(),
{
    if s.len() > 0 {
        let t = s.drop_first();
        assert forall|i: int| 0 <= i < t.len() implies t[i] != ':' by {
            assert(t[i] == s[i + 1]);
        }
        lemma_no_colon(t);
        assert(s[0] != ':');
    }
}

} // verus!
