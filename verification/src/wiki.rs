use vstd::prelude::*;

use crate::text::{same_text, text_of};

verus! {

/// The extension of the wiki's pages, which are written in Markdown.
pub const MARKDOWN: &'static str = "md";

/// The last component of the path `path`, as `std::path::Path::file_name`
/// finds it.
pub uninterp spec fn path_file_name(path: Seq<char>) -> Option<Seq<char>>;

/// The index of the last '.' in `name`, or -1 when there is none.
pub open spec fn last_dot(name: Seq<char>) -> int
    decreases name.len(),
{
    if name.len() == 0 {
        -1
    } else if name.last() == '.' {
        name.len() - 1
    } else {
        last_dot(name.drop_last())
    }
}

/// The extension of a file name, as the standard library defines it: none
/// when the name holds no '.', none when its only '.' is its first
/// character, otherwise what follows its last '.'.
pub open spec fn extension_of(name: Seq<char>) -> Option<Seq<char>> {
    let k = last_dot(name);
    if k <= 0 {
        None
    } else {
        Some(name.subrange(k + 1, name.len() as int))
    }
}

/// The extension of the path `path`: that of its last component, if it has
/// one.
pub open spec fn path_extension(path: Seq<char>) -> Option<Seq<char>> {
    match path_file_name(path) {
        Some(name) => extension_of(name),
        None => None,
    }
}

/// The standard library's `Path::file_name` on a path given as text: its
/// last component, none when the path ends in "..". The result is named
/// `path_file_name`; nothing more is claimed of it.
#[verifier::external_body]
fn file_name(path: &str) -> (r: Option<String>)
    ensures
        text_of(r) == path_file_name(path@),
{
    match std::path::Path::new(path).file_name() {
        Some(name) => Some(name.to_string_lossy().into_owned()),
        None => None,
    }
}

/// The standard library's `Path::extension` on a path given as text.
/// Claimed, as its documentation states: none when the path has no file
/// name, when the file name holds no '.', or when its only '.' is its first
/// character; otherwise the part of the file name after its last '.'.
#[verifier::external_body]
fn extension(path: &str) -> (r: Option<String>)
    ensures
        text_of(r) == path_extension(path@),
{
    match std::path::Path::new(path).extension() {
        Some(ext) => Some(ext.to_string_lossy().into_owned()),
        None => None,
    }
}

/// How the wiki serves a requested file.
#[derive(Debug, Clone, PartialEq)]
pub enum PageKind {
    /// A Markdown page, rendered as HTML under the given title: the file's
    /// name.
    Html { title: Option<String> },
    /// Any other file, sent as it is.
    File,
}

/// Decides how the wiki serves the file at `file`: a Markdown page (one
/// whose extension is `MARKDOWN`) is rendered under its file name, anything
/// else is sent as it is.
pub fn show(file: &str) -> (r: PageKind)
    ensures
        r is Html <==> path_extension(file@) == Some(MARKDOWN@),
        r matches PageKind::Html { title } ==> text_of(title) == path_file_name(file@),
{
    match extension(file) {
        Some(ext) => {
            if same_text(ext.as_str(), MARKDOWN) {
                PageKind::Html { title: file_name(file) }
            } else {
                PageKind::File
            }
        },
        None => PageKind::File,
    }
}

} // verus!
