//! Which files are indexed, which directories a scan descends into, and
//! how scan progress is reported.

use vstd::prelude::*;

pub use crate::events::handle_fs_event;

use crate::paths::{spec_extension, DocPath, DocPathView};
use crate::text::{
    begins_with_dot, eq_ignore_ascii_case, same_text, spec_eq_ignore_ascii_case, starts_with_dot,
    to_lowercase, unicode_lowercase, ascii_fold,
};

verus! {

/// File extensions (in lower case) of the documents that are indexed.
pub const SUPPORTED_EXTENSIONS: [&'static str; 21] = [
    "pdf",
    "docx",
    "doc",
    "txt",
    "md",
    "markdown",
    "rtf",
    "odt",
    "csv",
    "xlsx",
    "xls",
    "pptx",
    "ppt",
    "epub",
    "json",
    "yaml",
    "yml",
    "xml",
    "html",
    "htm",
    "log",
];

/// Names of directories that a scan never enters (compared without regard
/// to ASCII case).
pub const EXCLUDED_DIRS: [&'static str; 12] = [
    ".git",
    ".vscode",
    ".idea",
    "node_modules",
    "target",
    "build",
    "dist",
    "AppData",
    "$RECYCLE.BIN",
    "System Volume Information",
    "tmp",
    "temp",
];

pub open spec fn supported_extensions() -> Seq<Seq<char>> {
    seq![
        "pdf"@,
        "docx"@,
        "doc"@,
        "txt"@,
        "md"@,
        "markdown"@,
        "rtf"@,
        "odt"@,
        "csv"@,
        "xlsx"@,
        "xls"@,
        "pptx"@,
        "ppt"@,
        "epub"@,
        "json"@,
        "yaml"@,
        "yml"@,
        "xml"@,
        "html"@,
        "htm"@,
        "log"@,
    ]
}

pub open spec fn excluded_dirs() -> Seq<Seq<char>> {
    seq![
        ".git"@,
        ".vscode"@,
        ".idea"@,
        "node_modules"@,
        "target"@,
        "build"@,
        "dist"@,
        "AppData"@,
        "$RECYCLE.BIN"@,
        "System Volume Information"@,
        "tmp"@,
        "temp"@,
    ]
}

/// A directory is excluded when its name is hidden (begins with a dot) or
/// matches one of `EXCLUDED_DIRS` without regard to ASCII case.
pub open spec fn spec_is_dir_excluded(name: Seq<char>) -> bool {
    starts_with_dot(name) || exists|i: int|
        0 <= i < excluded_dirs().len() && spec_eq_ignore_ascii_case(name, #[trigger] excluded_dirs()[i])
}

pub fn is_dir_excluded(dir_name: &str) -> (r: bool)
    ensures
        r == spec_is_dir_excluded(dir_name@),
{
    if begins_with_dot(dir_name) {
        return true;
    }
    let mut i: usize = 0;
    while i < 12
        invariant
            i <= 12,
            forall|j: int| 0 <= j < i ==> !spec_eq_ignore_ascii_case(dir_name@, #[trigger] excluded_dirs()[j]),
        decreases 12 - i,
    {
        let ex: &str = EXCLUDED_DIRS[i];
        assert(ex@ == excluded_dirs()[i as int]);
        if eq_ignore_ascii_case(dir_name, ex) {
            return true;
        }
        i = i + 1;
    }
    false
}

/// Whether `ext`, already in lower case, is one of `SUPPORTED_EXTENSIONS`.
pub fn is_supported_lowercase_extension(ext: &str) -> (r: bool)
    ensures
        r == supported_extensions().contains(ext@),
{
    let mut i: usize = 0;
    while i < 21
        invariant
            i <= 21,
            forall|j: int| 0 <= j < i ==> #[trigger] supported_extensions()[j] != ext@,
        decreases 21 - i,
    {
        let known: &str = SUPPORTED_EXTENSIONS[i];
        assert(known@ == supported_extensions()[i as int]);
        if same_text(ext, known) {
            return true;
        }
        i = i + 1;
    }
    false
}

/// A file is a supported document when its name is not hidden, it is not a
/// symbolic link, and the Unicode lower case of its extension is supported.
pub open spec fn spec_is_supported_doc(path: DocPathView, is_symlink: bool) -> bool {
    &&& !(path.file_name matches Some(n) && starts_with_dot(n))
    &&& !is_symlink
    &&& spec_extension(path.file_name) matches Some(e) && supported_extensions().contains(
        unicode_lowercase(e),
    )
}

/// Whether `path` names a document to index; `is_symlink` tells whether the
/// filesystem reports it as a symbolic link.
pub fn is_supported_doc(path: &DocPath, is_symlink: bool) -> (r: bool)
    ensures
        r == spec_is_supported_doc(path@, is_symlink),
{
    if let Some(name) = path.file_name() {
        if begins_with_dot(name) {
            return false;
        }
    }
    if is_symlink {
        return false;
    }
    match path.extension() {
        Some(ext) => {
            let lower = to_lowercase(ext.as_str());
            is_supported_lowercase_extension(lower.as_str())
        },
        None => false,
    }
}

/// Whether a directory walk keeps an entry: the root always, a directory
/// whose name is UTF-8 only when it is not excluded, everything else.
pub fn keep_walk_entry(depth: usize, is_dir: bool, name: Option<&str>) -> (r: bool)
    ensures
        r == (depth == 0 || !is_dir || match name {
            Some(n) => !spec_is_dir_excluded(n@),
            None => true,
        }),
{
    if depth == 0 {
        return true;
    }
    if is_dir {
        if let Some(n) = name {
            return !is_dir_excluded(n);
        }
    }
    true
}

/// Exclusion does not depend on ASCII case: two names that differ only in
/// the case of ASCII letters are both excluded or both kept.
pub proof fn lemma_dir_exclusion_ignores_ascii_case(a: Seq<char>, b: Seq<char>)
    requires
        spec_eq_ignore_ascii_case(a, b),
    ensures
        spec_is_dir_excluded(a) == spec_is_dir_excluded(b),
{
    if a.len() > 0 {
        assert(ascii_fold(a[0]) == ascii_fold(b[0]));
        if a[0] == '.' {
            assert(b[0] as u32 == 46);
            vstd::utf8::char_u32_cast(b[0], 46);
            vstd::utf8::char_u32_cast('.', 46);
        }
        if b[0] == '.' {
            assert(a[0] as u32 == 46);
            vstd::utf8::char_u32_cast(a[0], 46);
            vstd::utf8::char_u32_cast('.', 46);
        }
        assert(starts_with_dot(a) == starts_with_dot(b));
    }
    assert forall|i: int| 0 <= i < excluded_dirs().len() implies spec_eq_ignore_ascii_case(
        a,
        #[trigger] excluded_dirs()[i],
    ) == spec_eq_ignore_ascii_case(b, excluded_dirs()[i]) by {
        let e = excluded_dirs()[i];
        if spec_eq_ignore_ascii_case(a, e) {
            assert forall|k: int| 0 <= k < b.len() implies ascii_fold(#[trigger] b[k]) == ascii_fold(e[k]) by {
                assert(ascii_fold(a[k]) == ascii_fold(b[k]));
            }
        }
        if spec_eq_ignore_ascii_case(b, e) {
            assert forall|k: int| 0 <= k < a.len() implies ascii_fold(#[trigger] a[k]) == ascii_fold(e[k]) by {
                assert(ascii_fold(a[k]) == ascii_fold(b[k]));
            }
        }
    }
    if exists|i: int| 0 <= i < excluded_dirs().len() && spec_eq_ignore_ascii_case(a, #[trigger] excluded_dirs()[i]) {
        let i = choose|i: int| 0 <= i < excluded_dirs().len() && spec_eq_ignore_ascii_case(a, #[trigger] excluded_dirs()[i]);
        assert(spec_eq_ignore_ascii_case(b, excluded_dirs()[i]));
    }
    if exists|i: int| 0 <= i < excluded_dirs().len() && spec_eq_ignore_ascii_case(b, #[trigger] excluded_dirs()[i]) {
        let i = choose|i: int| 0 <= i < excluded_dirs().len() && spec_eq_ignore_ascii_case(b, #[trigger] excluded_dirs()[i]);
        assert(spec_eq_ignore_ascii_case(a, excluded_dirs()[i]));
    }
}

/// Progress of a folder scan as reported to the user interface.
#[derive(Clone, Debug)]
pub struct ScanProgress {
    pub processed: u64,
    pub total: u64,
    pub current_file: String,
    pub is_scanning: bool,
}

impl ScanProgress {
    /// Progress with an unknown total (reported as 0).
    pub fn new(processed: u64, current_file: &str, is_scanning: bool) -> (p: ScanProgress)
        ensures
            p.processed == processed,
            p.total == 0,
            p.current_file@ == current_file@,
            p.is_scanning == is_scanning,
    {
        ScanProgress { processed, total: 0, current_file: String::from_str(current_file), is_scanning }
    }
}

} // verus!
