//! Classification of slot targets: the data type a path denotes and
//! whether its target exists.  What only the disk can answer comes in as a
//! `bool`, the answer to the `DiskQuery` that these functions name.

use vstd::prelude::*;
use crate::settings::DataType;
use crate::text::{
    chars_equal, chars_of, has_infix, has_prefix, lower_chars, lower_seq, starts_with_chars,
    contains_chars, string_from_chars, trim_chars, trimmed, lemma_trimmed_is_idempotent,
    lemma_ascii_lower_char, lemma_lower_seq_idempotent, lemma_lower_seq_subrange,
    lemma_lower_seq_trimmed,
};

verus! {

/// A question about the file system that the caller answers.
#[derive(Debug)]
pub enum DiskQuery {
    /// Is this path an existing directory?
    IsDirectory(String),
    /// Does anything exist at this path?
    Exists(String),
}

/// std's `Path::extension` of a path, as UTF-8 (`None` where std gives none
/// or where it is not UTF-8).
pub uninterp spec fn path_extension_of(path: Seq<char>) -> Option<Seq<char>>;

/// The characters of an optional string.
pub open spec fn opt_chars(s: Option<String>) -> Option<Seq<char>> {
    match s {
        Some(v) => Some(v@),
        None => None,
    }
}

/// A single path component with no separator or drive syntax in it on any
/// platform: non-empty, not `.` or `..`, and without `/`, `\` or `:`.
pub open spec fn plain_file_name(s: Seq<char>) -> bool {
    &&& s.len() > 0
    &&& s != "."@
    &&& s != ".."@
    &&& forall|i: int| 0 <= i < s.len() ==> #[trigger] s[i] != '/' && s[i] != '\\' && s[i] != ':'
}

/// Position of the last `.` in `s`, or -1 when there is none.
pub open spec fn last_dot(s: Seq<char>) -> int
    decreases s.len(),
{
    if s.len() == 0 {
        -1
    } else if s.last() == '.' {
        s.len() - 1
    } else {
        last_dot(s.drop_last())
    }
}

/// The extension of a file name as std documents it: none without an
/// embedded `.`, none when the name starts with `.` and has no other `.`,
/// otherwise the part after the final `.`.
pub open spec fn file_name_extension(name: Seq<char>) -> Option<Seq<char>> {
    let k = last_dot(name);
    if k <= 0 {
        None
    } else {
        Some(name.subrange(k + 1, name.len() as int))
    }
}

/// Calls std's `Path::new(path).extension()` and converts it to a `String`.
/// Claimed: the result is `path_extension_of(path)`; for a plain file name
/// it is the documented rule `file_name_extension`.  How std splits other
/// paths (separators, drive prefixes of the target platform) is left to the
/// name `path_extension_of`.
#[verifier::external_body]
pub(crate) fn path_extension(path: &str) -> (ext: Option<String>)
    ensures
        opt_chars(ext) == path_extension_of(path@),
        plain_file_name(path@) ==> opt_chars(ext) == file_name_extension(path@),
{
    match std::path::Path::new(path).extension() {
        Some(os) => match os.to_str() {
            Some(s) => Some(s.to_string()),
            None => None,
        },
        None => None,
    }
}

/// Whether a lower-cased path starts like a web address.
pub open spec fn web_prefixed(lower: Seq<char>) -> bool {
    has_prefix(lower, "http://"@) || has_prefix(lower, "https://"@) || has_prefix(lower, "www"@)
}

/// The data type that a (lower-cased) file extension stands for.
pub open spec fn extension_type_rule(lower_ext: Seq<char>) -> DataType {
    if lower_ext == "exe"@ {
        DataType::Exe
    } else if lower_ext == "vbs"@ || lower_ext == "bat"@ {
        DataType::Script
    } else if lower_ext == "bmp"@ || lower_ext == "jpg"@ || lower_ext == "jpe"@ || lower_ext
        == "jpeg"@ || lower_ext == "png"@ || lower_ext == "tga"@ {
        DataType::Image
    } else if lower_ext == "txt"@ {
        DataType::Text
    } else if lower_ext == "htm"@ || lower_ext == "html"@ {
        DataType::Url
    } else if lower_ext == "ppt"@ || lower_ext == "xls"@ || lower_ext == "doc"@ || lower_ext
        == "pdf"@ {
        DataType::Doc
    } else if lower_ext == "cpl"@ {
        DataType::Cpl
    } else {
        DataType::OtherApp
    }
}

/// The data type of a path that is neither empty, a directory nor a web
/// address, from its extension.
pub open spec fn optional_extension_type_rule(ext: Option<Seq<char>>) -> DataType {
    match ext {
        Some(e) => extension_type_rule(lower_seq(e)),
        None => DataType::OtherApp,
    }
}

/// The data type of `path`, given whether its trimmed form is a directory.
pub open spec fn data_type_rule(path: Seq<char>, is_directory: bool) -> DataType {
    let t = trimmed(path);
    if t.len() == 0 {
        DataType::Empty
    } else if is_directory {
        DataType::Folder
    } else if web_prefixed(lower_seq(t)) {
        DataType::Url
    } else {
        optional_extension_type_rule(path_extension_of(t))
    }
}

/// `data_type_rule` for a path whose trimmed form is a plain file name,
/// where the extension follows std's documented rule.
pub open spec fn documented_data_type_rule(path: Seq<char>, is_directory: bool) -> DataType {
    let t = trimmed(path);
    if t.len() == 0 {
        DataType::Empty
    } else if is_directory {
        DataType::Folder
    } else if web_prefixed(lower_seq(t)) {
        DataType::Url
    } else {
        optional_extension_type_rule(file_name_extension(t))
    }
}

/// A path of type `data_type` denotes something that exists, given the
/// answer `on_disk` to `path_query`.
pub open spec fn path_exists_rule(path: Seq<char>, data_type: DataType, on_disk: bool) -> bool {
    let t = trimmed(path);
    if t.len() == 0 {
        false
    } else if data_type == DataType::Url {
        has_infix(t, "http://"@) || has_infix(t, "https://"@) || has_prefix(t, "www"@)
    } else {
        on_disk
    }
}

/// `q` is the disk question that deciding `path_exists_rule` needs.
pub open spec fn path_query_rule(q: Option<DiskQuery>, path: Seq<char>, data_type: DataType) -> bool {
    let t = trimmed(path);
    if t.len() == 0 || data_type == DataType::Url {
        q is None
    } else if data_type == DataType::Folder {
        q matches Some(DiskQuery::IsDirectory(p)) && p@ == t
    } else {
        q matches Some(DiskQuery::Exists(p)) && p@ == t
    }
}

/// The data type a lower-cased extension stands for.
pub fn extension_data_type(lower_ext: &Vec<char>) -> (d: DataType)
    ensures
        d == extension_type_rule(lower_ext@),
{
    let e = lower_ext;
    if chars_equal(e, &chars_of("exe")) {
        DataType::Exe
    } else if chars_equal(e, &chars_of("vbs")) || chars_equal(e, &chars_of("bat")) {
        DataType::Script
    } else if chars_equal(e, &chars_of("bmp")) || chars_equal(e, &chars_of("jpg")) || chars_equal(
        e,
        &chars_of("jpe"),
    ) || chars_equal(e, &chars_of("jpeg")) || chars_equal(e, &chars_of("png")) || chars_equal(
        e,
        &chars_of("tga"),
    ) {
        DataType::Image
    } else if chars_equal(e, &chars_of("txt")) {
        DataType::Text
    } else if chars_equal(e, &chars_of("htm")) || chars_equal(e, &chars_of("html")) {
        DataType::Url
    } else if chars_equal(e, &chars_of("ppt")) || chars_equal(e, &chars_of("xls")) || chars_equal(
        e,
        &chars_of("doc"),
    ) || chars_equal(e, &chars_of("pdf")) {
        DataType::Doc
    } else if chars_equal(e, &chars_of("cpl")) {
        DataType::Cpl
    } else {
        DataType::OtherApp
    }
}

/// The data type of a path given the extension std found in it: a known
/// extension (compared without ASCII case) decides, anything else is
/// `OtherApp`.
pub fn data_type_from_extension(ext: Option<&str>) -> (d: DataType)
    ensures
        d == optional_extension_type_rule(
            match ext {
                Some(e) => Some(e@),
                None => None,
            },
        ),
{
    match ext {
        Some(e) => {
            let lower = lower_chars(&chars_of(e));
            extension_data_type(&lower)
        },
        None => DataType::OtherApp,
    }
}

/// The disk question `detect_data_type` needs answered: whether the
/// trimmed path is a directory (none for a blank path).
pub fn detect_query(path: &str) -> (q: Option<DiskQuery>)
    ensures
        trimmed(path@).len() == 0 ==> q is None,
        trimmed(path@).len() > 0 ==> (q matches Some(DiskQuery::IsDirectory(p)) && p@ == trimmed(
            path@,
        )),
{
    let t = trim_chars(&chars_of(path));
    if t.len() == 0 {
        None
    } else {
        Some(DiskQuery::IsDirectory(string_from_chars(&t)))
    }
}

/// The data type of a slot target: `None` for a blank path, `Folder` for a
/// directory (`is_directory` answers `detect_query(path)`), `Url` for a path
/// starting with `http://`, `https://` or `www` in any ASCII case, otherwise
/// by the extension of the trimmed path.
pub fn detect_data_type(path: &str, is_directory: bool) -> (d: DataType)
    ensures
        d == data_type_rule(path@, is_directory),
        plain_file_name(trimmed(path@)) ==> d == documented_data_type_rule(path@, is_directory),
{
    let t = trim_chars(&chars_of(path));
    if t.len() == 0 {
        return DataType::Empty;
    }
    if is_directory {
        return DataType::Folder;
    }
    let lower = lower_chars(&t);
    if starts_with_chars(&lower, &chars_of("http://")) || starts_with_chars(
        &lower,
        &chars_of("https://"),
    ) || starts_with_chars(&lower, &chars_of("www")) {
        return DataType::Url;
    }
    let ts = string_from_chars(&t);
    let ext = path_extension(ts.as_str());
    match ext {
        Some(e) => data_type_from_extension(Some(e.as_str())),
        None => data_type_from_extension(None),
    }
}

/// The disk question `disk_path_exists` needs answered for a slot target:
/// none for a blank path or a web address, whether the trimmed path is a
/// directory for a folder, whether it exists for anything else.
pub fn path_query(path: &str, data_type: &DataType) -> (q: Option<DiskQuery>)
    ensures
        path_query_rule(q, path@, *data_type),
{
    let t = trim_chars(&chars_of(path));
    if t.len() == 0 {
        return None;
    }
    match data_type {
        DataType::Url => None,
        DataType::Folder => Some(DiskQuery::IsDirectory(string_from_chars(&t))),
        _ => Some(DiskQuery::Exists(string_from_chars(&t))),
    }
}

/// Whether a slot target exists: never for a blank path; for a web address
/// when it contains `http://` or `https://` or starts with `www`; otherwise
/// `on_disk`, the answer to `path_query(path, data_type)`.
pub fn disk_path_exists(path: &str, data_type: &DataType, on_disk: bool) -> (r: bool)
    ensures
        r == path_exists_rule(path@, *data_type, on_disk),
{
    let t = trim_chars(&chars_of(path));
    if t.len() == 0 {
        return false;
    }
    match data_type {
        DataType::Url => contains_chars(&t, &chars_of("http://")) || contains_chars(
            &t,
            &chars_of("https://"),
        ) || starts_with_chars(&t, &chars_of("www")),
        _ => on_disk,
    }
}

/// Law: a slot whose path is blank never counts as existing, whatever the
/// disk says, so it can never be run.
pub proof fn lemma_blank_targets_never_exist(path: Seq<char>, data_type: DataType, on_disk: bool)
    requires
        trimmed(path).len() == 0,
    ensures
        !path_exists_rule(path, data_type, on_disk),
        data_type_rule(path, on_disk) == DataType::Empty,
{
}

/// Law: surrounding white space does not matter: a path and its trimmed
/// form get the same data type (for the same directory answer) and the same
/// existence verdict.
pub proof fn lemma_trimming_changes_nothing(path: Seq<char>, data_type: DataType, on_disk: bool)
    ensures
        data_type_rule(trimmed(path), on_disk) == data_type_rule(path, on_disk),
        path_exists_rule(trimmed(path), data_type, on_disk) == path_exists_rule(
            path,
            data_type,
            on_disk,
        ),
{
    lemma_trimmed_is_idempotent(path);
}

/// `last_dot` is -1 or a position in `s`.
pub proof fn lemma_last_dot_bounds(s: Seq<char>)
    ensures
        -1 <= last_dot(s) < s.len(),
    decreases s.len(),
{
    if s.len() > 0 && s.last() != '.' {
        lemma_last_dot_bounds(s.drop_last());
    }
}

/// ASCII lower-casing moves no `.`.
pub proof fn lemma_last_dot_ignores_case(s: Seq<char>)
    ensures
        last_dot(lower_seq(s)) == last_dot(s),
    decreases s.len(),
{
    if s.len() > 0 {
        lemma_ascii_lower_char(s.last());
        assert(lower_seq(s).drop_last() =~= lower_seq(s.drop_last()));
        lemma_last_dot_ignores_case(s.drop_last());
    }
}

/// A name is a plain file name exactly when its lower-cased form is, and
/// the extension of the lower-cased name is the lower-cased extension.
pub proof fn lemma_file_name_ignores_case(s: Seq<char>)
    ensures
        plain_file_name(lower_seq(s)) == plain_file_name(s),
        file_name_extension(lower_seq(s)) == match file_name_extension(s) {
            Some(e) => Some(lower_seq(e)),
            None => None,
        },
{
    reveal_strlit(".");
    reveal_strlit("..");
    let l = lower_seq(s);
    assert forall|i: int| 0 <= i < s.len() implies (#[trigger] l[i] == '/') == (s[i] == '/') && (
    l[i] == '\\') == (s[i] == '\\') && (l[i] == ':') == (s[i] == ':') && (l[i] == '.') == (s[i]
        == '.') by {
        lemma_ascii_lower_char(s[i]);
    }
    if s.len() == 1 {
        if s[0] == '.' {
            assert(s =~= "."@);
            assert(l =~= "."@);
        } else {
            assert(l[0] != "."@[0]);
            assert(s[0] != "."@[0]);
        }
    }
    if s.len() == 2 {
        if s[0] == '.' && s[1] == '.' {
            assert(s =~= ".."@);
            assert(l =~= ".."@);
        } else if s[0] != '.' {
            assert(l[0] != ".."@[0]);
            assert(s[0] != ".."@[0]);
        } else {
            assert(l[1] != ".."@[1]);
            assert(s[1] != ".."@[1]);
        }
    }
    if plain_file_name(s) {
        assert forall|i: int| 0 <= i < l.len() implies #[trigger] l[i] != '/' && l[i] != '\\'
            && l[i] != ':' by {
            assert(s[i] != '/' && s[i] != '\\' && s[i] != ':');
        }
    }
    if plain_file_name(l) {
        assert forall|i: int| 0 <= i < s.len() implies #[trigger] s[i] != '/' && s[i] != '\\'
            && s[i] != ':' by {
            assert(l[i] != '/' && l[i] != '\\' && l[i] != ':');
        }
    }
    lemma_last_dot_ignores_case(s);
    lemma_last_dot_bounds(s);
    let k = last_dot(s);
    if k > 0 {
        lemma_lower_seq_subrange(s, k + 1, s.len() as int);
    }
}

/// Law: for a path whose trimmed form is a plain file name, the detected
/// data type ignores ASCII case: the lower-cased path (trimmed form still a
/// plain file name) gets the same data type for the same directory answer.
pub proof fn lemma_detection_ignores_ascii_case(path: Seq<char>, is_directory: bool)
    requires
        plain_file_name(trimmed(path)),
    ensures
        plain_file_name(trimmed(lower_seq(path))),
        documented_data_type_rule(lower_seq(path), is_directory) == documented_data_type_rule(
            path,
            is_directory,
        ),
{
    let t = trimmed(path);
    lemma_lower_seq_trimmed(path);
    lemma_file_name_ignores_case(t);
    lemma_lower_seq_idempotent(t);
    match file_name_extension(t) {
        Some(e) => {
            lemma_lower_seq_idempotent(e);
        },
        None => {},
    }
}

/// Law: the directory answer decides first.  A non-blank path that the
/// disk reports as a directory is a `Folder`, whatever its name or
/// extension; one that is not a directory is never a `Folder`; a blank path
/// has no type either way.
pub proof fn lemma_directories_are_folders(path: Seq<char>, is_directory: bool)
    ensures
        trimmed(path).len() > 0 && is_directory ==> data_type_rule(path, is_directory)
            == DataType::Folder && documented_data_type_rule(path, is_directory)
            == DataType::Folder,
        !is_directory ==> data_type_rule(path, is_directory) != DataType::Folder
            && documented_data_type_rule(path, is_directory) != DataType::Folder,
        trimmed(path).len() == 0 ==> data_type_rule(path, is_directory) == DataType::Empty,
        trimmed(path).len() > 0 ==> data_type_rule(path, is_directory) != DataType::Empty,
{
}

/// Law: a non-blank path that is not a directory and starts, in any ASCII
/// case, with `http://`, `https://` or `www` is a web address, whatever its
/// extension.
pub proof fn lemma_web_prefixes_are_urls(path: Seq<char>)
    requires
        trimmed(path).len() > 0,
        has_prefix(lower_seq(trimmed(path)), "http://"@) || has_prefix(
            lower_seq(trimmed(path)),
            "https://"@,
        ) || has_prefix(lower_seq(trimmed(path)), "www"@),
    ensures
        data_type_rule(path, false) == DataType::Url,
{
}

/// Law: existence of a web address never depends on the disk, existence of
/// anything else with a non-blank path is exactly the disk's answer, and a
/// web address containing `http://` or `https://` exists.
pub proof fn lemma_existence_sources(path: Seq<char>, data_type: DataType, on_disk: bool)
    ensures
        path_exists_rule(path, DataType::Url, true) == path_exists_rule(path, DataType::Url, false),
        trimmed(path).len() > 0 && data_type != DataType::Url ==> path_exists_rule(
            path,
            data_type,
            on_disk,
        ) == on_disk,
        trimmed(path).len() > 0 && (has_infix(trimmed(path), "http://"@) || has_infix(
            trimmed(path),
            "https://"@,
        )) ==> path_exists_rule(path, DataType::Url, on_disk),
{
}

} // verus!
