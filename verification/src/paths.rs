//! File names and extensions of paths.
use vstd::prelude::*;
use crate::text::{chars_of, string_from};

verus! {

/// The final component of a path, as `Path::file_name` finds it (`None`
/// when the path ends in `..` or has no components). The separators that
/// split components are those of the platform the library is built for,
/// fixed for each build.
pub uninterp spec fn file_name_of(path: Seq<char>) -> Option<Seq<char>>;

/// `Path::file_name` from std, for a path given as text: its result is
/// named `file_name_of`; how components are split (by the build platform's
/// rules) is left unstated.
#[verifier::external_body]
pub(crate) fn path_file_name(path: &str) -> (r: Option<String>)
    ensures
        match r {
            Some(n) => file_name_of(path@) == Some(n@),
            None => file_name_of(path@) is None,
        },
{
    std::path::Path::new(path).file_name().map(|n| n.to_string_lossy().into_owned())
}

/// The path of `name` inside the directory `dir`, as `Path::join` builds it
/// with the separator of the platform the library is built for, fixed for
/// each build.
pub uninterp spec fn joined_path(dir: Seq<char>, name: Seq<char>) -> Seq<char>;

/// `Path::join` from std, for paths given as text: its result is named
/// `joined_path`; how separators are placed (by the build platform's rules)
/// is left unstated.
#[verifier::external_body]
pub(crate) fn path_join(dir: &str, name: &str) -> (r: String)
    ensures
        r@ == joined_path(dir@, name@),
{
    std::path::Path::new(dir).join(name).to_string_lossy().into_owned()
}

/// The file name of a path, or the empty text when it has none.
pub fn file_name_or_empty(path: &str) -> (r: String)
    ensures
        r@ == match file_name_of(path@) {
            Some(n) => n,
            None => Seq::<char>::empty(),
        },
{
    match path_file_name(path) {
        Some(n) => n,
        None => String::new(),
    }
}

/// The path without its final component, as `Path::parent` finds it
/// (`None` for a root or an empty path), by the path rules of the platform
/// the library is built for, fixed for each build.
pub uninterp spec fn parent_of(path: Seq<char>) -> Option<Seq<char>>;

/// `Path::parent` from std, for a path given as text: its result is named
/// `parent_of`; how components are split (by the build platform's rules) is
/// left unstated.
#[verifier::external_body]
fn path_parent(path: &str) -> (r: Option<String>)
    ensures
        match r {
            Some(p) => parent_of(path@) == Some(p@),
            None => parent_of(path@) is None,
        },
{
    std::path::Path::new(path).parent().map(|p| p.to_string_lossy().into_owned())
}

/// What the file manager opens to show a file when it cannot select it:
/// the file's parent directory, or the path itself when it has none.
pub fn reveal_fallback(path: &str) -> (r: String)
    ensures
        r@ == match parent_of(path@) {
            Some(p) => p,
            None => path@,
        },
{
    match path_parent(path) {
        Some(p) => p,
        None => path.to_owned(),
    }
}

/// The index of the last `.` in `s`, or -1 when there is none.
pub open spec fn last_dot(s: Seq<char>) -> int
    decreases s.len(),
{
    if s.len() == 0 {
        -1
    } else if s.last() == '.' {
        s.len() - 1
    } else {
        last_dot(s.drop_last())
    }
}

/// The extension of a file name, as `Path::extension` defines it: the part
/// after the last `.`, except when there is no `.` or the only one is the
/// first character.
pub open spec fn extension_of_name(name: Seq<char>) -> Option<Seq<char>> {
    let k = last_dot(name);
    if k <= 0 {
        None
    } else {
        Some(name.skip(k + 1))
    }
}

/// The last dot of `stem.ext` is the one before `ext` when `ext` has none.
proof fn lemma_last_dot_before(stem: Seq<char>, ext: Seq<char>)
    requires
        forall|i: int| 0 <= i < ext.len() ==> ext[i] != '.',
    ensures
        last_dot(stem + "."@ + ext) == stem.len(),
    decreases ext.len(),
{
    reveal_strlit(".");
    let s = stem + "."@ + ext;
    if ext.len() == 0 {
        assert(s.last() == '.');
    } else {
        assert(s.last() == ext.last());
        let e2 = ext.drop_last();
        assert forall|i: int| 0 <= i < e2.len() implies e2[i] != '.' by {
            assert(e2[i] == ext[i]);
        }
        lemma_last_dot_before(stem, e2);
        assert(s.drop_last() =~= stem + "."@ + e2);
    }
}

/// A text without a dot has no last dot.
proof fn lemma_no_dot(s: Seq<char>)
    requires
        forall|i: int| 0 <= i < s.len() ==> s[i] != '.',
    ensures
        last_dot(s) == -1,
    decreases s.len(),
{
    if s.len() > 0 {
        let t = s.drop_last();
        assert forall|i: int| 0 <= i < t.len() implies t[i] != '.' by {
            assert(t[i] == s[i]);
        }
        lemma_no_dot(t);
    }
}

/// The extension of a file name is what follows its last dot: `stem.ext`
/// with a non-empty stem has the extension `ext` (empty after a final dot);
/// a name without a dot, and a name whose only dot is its first character,
/// has none.
pub proof fn lemma_extension_of_name_shape(stem: Seq<char>, ext: Seq<char>)
    requires
        forall|i: int| 0 <= i < ext.len() ==> ext[i] != '.',
    ensures
        stem.len() > 0 ==> extension_of_name(stem + "."@ + ext) == Some(ext),
        extension_of_name("."@ + ext) is None,
        extension_of_name(ext) is None,
{
    reveal_strlit(".");
    lemma_last_dot_before(stem, ext);
    assert((stem + "."@ + ext).skip(stem.len() as int + 1) =~= ext);
    lemma_last_dot_before(Seq::<char>::empty(), ext);
    assert(Seq::<char>::empty() + "."@ + ext =~= "."@ + ext);
    lemma_no_dot(ext);
}

/// The extension of a path: that of its file name.
pub open spec fn path_extension(path: Seq<char>) -> Option<Seq<char>> {
    match file_name_of(path) {
        Some(n) => extension_of_name(n),
        None => None,
    }
}

/// The extension of a file name.
pub fn name_extension(name: &str) -> (r: Option<String>)
    ensures
        match r {
            Some(e) => extension_of_name(name@) == Some(e@),
            None => extension_of_name(name@) is None,
        },
{
    let cs = chars_of(name);
    let mut i: usize = cs.len();
    assert(cs@.subrange(0, i as int) =~= cs@);
    while i > 0 && cs[i - 1] != '.'
        invariant
            i <= cs.len(),
            cs@ == name@,
            last_dot(name@) == last_dot(cs@.subrange(0, i as int)),
        decreases i,
    {
        assert(cs@.subrange(0, i as int).drop_last() =~= cs@.subrange(0, i - 1));
        i = i - 1;
    }
    // here `i - 1` is the last dot, or `i == 0` when there is none
    if i <= 1 {
        proof {
            if i == 1 {
                assert(last_dot(cs@.subrange(0, 1)) == 0);
            }
        }
        None
    } else {
        assert(last_dot(cs@.subrange(0, i as int)) == i - 1);
        let e = string_from(&cs, i, cs.len());
        assert(e@ =~= name@.skip(i as int));
        Some(e)
    }
}

/// The extension of a path.
pub fn extension(path: &str) -> (r: Option<String>)
    ensures
        match r {
            Some(e) => path_extension(path@) == Some(e@),
            None => path_extension(path@) is None,
        },
{
    match path_file_name(path) {
        Some(n) => name_extension(n.as_str()),
        None => None,
    }
}

} // verus!
