//! Directory entries, and which of them a load reads.

use crate::storage::text::same_text;
use vstd::prelude::*;

verus! {

/// An entry of the scanned directory: its path, and the extension of the
/// path's file name where it has one.
#[derive(Debug, Clone, PartialEq, Eq)]
pub struct DirectoryEntry {
    pub path: String,
    pub extension: Option<String>,
}

/// An entry in contracts.
pub struct EntryView {
    pub path: Seq<char>,
    pub extension: Option<Seq<char>>,
}

impl EntryView {
    /// Whether the extension is `json`, letter for letter.
    pub open spec fn is_json(self) -> bool {
        self.extension == Some("json"@)
    }
}

impl View for DirectoryEntry {
    type V = EntryView;

    open spec fn view(&self) -> EntryView {
        EntryView {
            path: self.path@,
            extension: text_view(self.extension),
        }
    }
}

/// Whether `part` can be the extension of a file name in `text`: it stands
/// directly behind a dot that is not the first character, and behind it the
/// text ends or a separator follows.
pub open spec fn follows_dot(text: Seq<char>, part: Seq<char>) -> bool {
    exists|dot: int|
        0 < dot && dot + 1 + part.len() <= text.len() && #[trigger] text[dot] == '.'
            && text.subrange(dot + 1, dot + 1 + part.len()) == part && (dot + 1 + part.len()
            == text.len() || text[dot + 1 + part.len()] == '/' || text[dot + 1 + part.len()]
            == '\\')
}

/// Whether every system splits the path into the same components: it holds
/// no backslash and no colon and does not start with two slashes, so that
/// the slash is its only separator and no drive or share stands in front.
pub open spec fn is_plain(path: Seq<char>) -> bool {
    !path.contains('\\') && !path.contains(':') && !(path.len() >= 2 && path[0] == '/' && path[1]
        == '/')
}

/// Whether the path ends in a file name that has `part` behind its last dot:
/// the name starts at `start`, at the front of the path or behind a slash,
/// and runs to the end of the path; it is not `..`; the dot is not its first
/// character; and `part` is all that follows the dot, with no dot in it.
pub open spec fn ends_in(path: Seq<char>, part: Seq<char>) -> bool {
    exists|start: int, dot: int|
        #![trigger path.subrange(start, path.len() as int), path[dot]]
        0 <= start < dot < path.len() && (start == 0 || path[start - 1] == '/')
            && !path.subrange(start, path.len() as int).contains('/') && path.subrange(
            start,
            path.len() as int,
        ) != seq!['.', '.'] && path[dot] == '.' && path.subrange(dot + 1, path.len() as int)
            == part && !part.contains('.')
}

/// What holds of the extension that a path has.
///
/// Whatever the path: an extension holds no dot and can be the extension of
/// a file name in the path. And where the path is plain and ends in a file
/// name with a part behind its last dot, that part is the extension.
pub open spec fn extension_fits(path: Seq<char>, extension: Option<Seq<char>>) -> bool {
    &&& extension matches Some(part) ==> !part.contains('.') && follows_dot(path, part)
    &&& is_plain(path) ==> forall|part: Seq<char>| #[trigger]
        ends_in(path, part) ==> extension == Some(part)
}

/// An optional text as its characters.
pub open spec fn text_view(text: Option<String>) -> Option<Seq<char>> {
    match text {
        Some(text) => Some(text@),
        None => None,
    }
}

/// Calls `std::path::Path::extension` on the path and gives the extension
/// as text.
///
/// Not proved, but taken from the documentation of `Path::extension`,
/// `Path::file_name` and `Path::components`: the extension is the part of
/// the file name behind its last dot, where that dot is not the name's first
/// character; and the file name is the path's last component, unless that is
/// `..`. Which part of a path is its last component differs between systems
/// where a backslash, a colon or two leading slashes come in, so the
/// extension is promised for the other paths only, and only where they end
/// with the file name.
#[verifier::external_body]
fn path_extension(path: &str) -> (extension: Option<String>)
    ensures
        extension_fits(path@, text_view(extension)),
{
    std::path::Path::new(path).extension().map(|part| part.to_string_lossy().into_owned())
}

impl DirectoryEntry {
    /// The entry at `path`, with the extension that the path has. A plain
    /// path that ends in a file name such as `a.json` has what stands behind
    /// the name's last dot; no path has an extension that it does not show.
    pub fn from_path(path: String) -> (entry: DirectoryEntry)
        ensures
            entry@.path == path@,
            extension_fits(path@, entry@.extension),
    {
        let extension = path_extension(path.as_str());
        DirectoryEntry { path, extension }
    }

    /// Whether a load reads this entry: its extension is `json`, letter for
    /// letter.
    pub fn is_json(&self) -> (json: bool)
        ensures
            json == self@.is_json(),
    {
        match &self.extension {
            Some(extension) => same_text(extension.as_str(), "json"),
            None => false,
        }
    }
}

} // verus!
