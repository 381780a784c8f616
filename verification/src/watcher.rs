//! The file-watcher's routing decisions. The hosting application
//! subscribes to filesystem notifications; which changed paths matter
//! and where each one routes — epic re-parse, ticket re-parse with its
//! folder, or nothing — is decided here.

use vstd::prelude::*;

use crate::strutil::contains_substring;
use crate::strutil::matches_at;
use crate::strutil::spec_contains;
use crate::strutil::spec_matches_at;

verus! {

/// Where a changed markdown file routes.
#[derive(Debug, Clone, PartialEq, Eq)]
pub enum MdChange {
    /// A file under the epics folder: re-parse it as an epic.
    EpicFile,
    /// A file under a ticket folder: re-parse it as a ticket of that
    /// folder.
    TicketFile(String),
    /// Anything else is ignored.
    Other,
}

/// Whether the path names a markdown file.
pub open spec fn spec_is_markdown_path(path: Seq<char>) -> bool {
    path.len() >= 3 && spec_matches_at(path, ".md"@, path.len() - 3)
}

/// Whether the changed path is worth reporting: only markdown files
/// are.
pub fn is_markdown_path(path: &str) -> (r: bool)
    ensures
        r == spec_is_markdown_path(path@),
{
    let n = path.unicode_len();
    if n < 3 {
        return false;
    }
    matches_at(path, ".md", n - 3)
}

/// Routes a changed markdown path.
pub fn md_change_route(path: &str) -> (r: MdChange)
    ensures
        spec_contains(path@, "/epics/"@) ==> r == MdChange::EpicFile,
        !spec_contains(path@, "/epics/"@) && spec_contains(path@, "/backlog/"@) ==> (r matches
            MdChange::TicketFile(f) && f@ == "backlog"@),
        !spec_contains(path@, "/epics/"@) && !spec_contains(path@, "/backlog/"@) && spec_contains(
            path@,
            "/inprogress/"@,
        ) ==> (r matches MdChange::TicketFile(f) && f@ == "inprogress"@),
        !spec_contains(path@, "/epics/"@) && !spec_contains(path@, "/backlog/"@) && !spec_contains(
            path@,
            "/inprogress/"@,
        ) && spec_contains(path@, "/done/"@) ==> (r matches MdChange::TicketFile(f) && f@
            == "done"@),
        !spec_contains(path@, "/epics/"@) && !spec_contains(path@, "/backlog/"@) && !spec_contains(
            path@,
            "/inprogress/"@,
        ) && !spec_contains(path@, "/done/"@) ==> r == MdChange::Other,
{
    if contains_substring(path, "/epics/") {
        MdChange::EpicFile
    } else if contains_substring(path, "/backlog/") {
        MdChange::TicketFile(String::from_str("backlog"))
    } else if contains_substring(path, "/inprogress/") {
        MdChange::TicketFile(String::from_str("inprogress"))
    } else if contains_substring(path, "/done/") {
        MdChange::TicketFile(String::from_str("done"))
    } else {
        MdChange::Other
    }
}

} // verus!
