//! Markdown ticket and epic parsing. The hosting application walks the
//! project's folders and reads each markdown file; the content of one
//! file is parsed here, by the grammar the doc comments state.

use vstd::prelude::*;

use crate::strutil::find_char_from;
use crate::strutil::is_digit;
use crate::strutil::is_digit_char;
use crate::strutil::find_substring;
use crate::strutil::is_space;
use crate::strutil::spec_contains;
use crate::strutil::spec_first_match;
use crate::strutil::is_space_char;
use crate::strutil::matches_at;
use crate::strutil::push_char;
use crate::strutil::spec_exists_char;
use crate::strutil::spec_first_char;
use crate::strutil::spec_lines;
use crate::strutil::spec_matches_at;
use crate::strutil::spec_trim;
use crate::strutil::split_lines;
use crate::strutil::str_eq;
use crate::strutil::trim_str;

verus! {

/// One ticket, as parsed from a markdown file.
pub struct Ticket {
    pub id: String,
    pub title: String,
    pub epic: String,
    pub description: String,
    pub criteria: Vec<String>,
    pub status: String,
    pub file_path: String,
}

/// One epic, as parsed from a markdown file.
pub struct Epic {
    pub id: String,
    pub title: String,
    pub scope: String,
    pub tickets: Vec<String>,
    pub file_path: String,
}

/// Clones a vector of strings.
pub fn clone_string_vec(v: &Vec<String>) -> (r: Vec<String>)
    ensures
        r@.len() == v@.len(),
        forall|i: int| 0 <= i < v@.len() ==> r@[i] == v@[i],
{
    let mut out: Vec<String> = Vec::new();
    let mut k: usize = 0;
    while k < v.len()
        invariant
            k <= v@.len(),
            out@.len() == k,
            forall|i: int| 0 <= i < k ==> out@[i] == v@[i],
        decreases v@.len() - k,
    {
        out.push(v[k].clone());
        k += 1;
    }
    out
}

impl Clone for Ticket {
    fn clone(&self) -> (r: Self)
        ensures
            r.id == self.id,
            r.title == self.title,
            r.epic == self.epic,
            r.description == self.description,
            r.criteria@.len() == self.criteria@.len(),
            forall|i: int| 0 <= i < self.criteria@.len() ==> r.criteria@[i] == self.criteria@[i],
            r.status == self.status,
            r.file_path == self.file_path,
    {
        Ticket {
            id: self.id.clone(),
            title: self.title.clone(),
            epic: self.epic.clone(),
            description: self.description.clone(),
            criteria: clone_string_vec(&self.criteria),
            status: self.status.clone(),
            file_path: self.file_path.clone(),
        }
    }
}

impl Clone for Epic {
    fn clone(&self) -> (r: Self)
        ensures
            r.id == self.id,
            r.title == self.title,
            r.scope == self.scope,
            r.tickets@.len() == self.tickets@.len(),
            forall|i: int| 0 <= i < self.tickets@.len() ==> r.tickets@[i] == self.tickets@[i],
            r.file_path == self.file_path,
    {
        Epic {
            id: self.id.clone(),
            title: self.title.clone(),
            scope: self.scope.clone(),
            tickets: clone_string_vec(&self.tickets),
            file_path: self.file_path.clone(),
        }
    }
}

/// The status a ticket folder stands for; unknown folders fall back to
/// the backlog.
pub open spec fn spec_folder_to_status(folder: Seq<char>) -> Seq<char> {
    if folder == "in-progress"@ || folder == "inprogress"@ {
        "in_progress"@
    } else if folder == "done"@ {
        "done"@
    } else {
        "backlog"@
    }
}

/// Maps a ticket folder name to the status its tickets carry.
pub fn folder_to_status(folder: &str) -> (r: String)
    ensures
        r@ == spec_folder_to_status(folder@),
{
    if str_eq(folder, "in-progress") || str_eq(folder, "inprogress") {
        String::from_str("in_progress")
    } else if str_eq(folder, "done") {
        String::from_str("done")
    } else {
        String::from_str("backlog")
    }
}

/// The folder a ticket status files under; a status naming no folder is
/// `None`.
pub open spec fn spec_status_to_folder(status: Seq<char>) -> Option<Seq<char>> {
    if status == "backlog"@ {
        Some("backlog"@)
    } else if status == "in_progress"@ {
        Some("inprogress"@)
    } else if status == "done"@ {
        Some("done"@)
    } else {
        None
    }
}

/// Maps a ticket status to the folder its file moves to.
pub fn status_to_folder(status: &str) -> (r: Option<String>)
    ensures
        match r {
            Some(f) => spec_status_to_folder(status@) == Some(f@),
            None => spec_status_to_folder(status@) is None,
        },
{
    if str_eq(status, "backlog") {
        Some(String::from_str("backlog"))
    } else if str_eq(status, "in_progress") {
        Some(String::from_str("inprogress"))
    } else if str_eq(status, "done") {
        Some(String::from_str("done"))
    } else {
        None
    }
}

/// Whether a non-whitespace character occurs at or after `from`.
pub open spec fn spec_exists_nonspace(s: Seq<char>, from: int) -> bool {
    exists|k: int| from <= k < s.len() && !is_space(s[k])
}

/// The first non-whitespace position at or after `from`.
pub open spec fn spec_first_nonspace(s: Seq<char>, from: int) -> int {
    choose|k: int|
        from <= k < s.len() && !is_space(s[k]) && (forall|j: int| from <= j < k ==> is_space(s[j]))
}

/// Finds the first non-whitespace position at or after `from`.
fn find_nonspace(s: &str, from: usize) -> (r: Option<usize>)
    ensures
        match r {
            Some(k) => from <= k < s@.len() && !is_space(s@[k as int]) && (forall|j: int|
                from <= j < k ==> is_space(s@[j])) && k as int == spec_first_nonspace(
                s@,
                from as int,
            ),
            None => !spec_exists_nonspace(s@, from as int),
        },
{
    let slen = s.unicode_len();
    let mut k: usize = from;
    while k < slen
        invariant
            slen == s@.len(),
            from <= k <= slen || (from > slen && k == from),
            forall|j: int| from <= j < k ==> is_space(s@[j]),
        decreases slen - k,
    {
        if !is_space_char(s.get_char(k)) {
            proof {
                let w = spec_first_nonspace(s@, from as int);
                assert(from <= k < s@.len() && !is_space(s@[k as int]) && (forall|j: int|
                    from <= j < k ==> is_space(s@[j])));
                if w != k as int {
                    assert(is_space(s@[w]) || is_space(s@[k as int]));
                }
            }
            return Some(k);
        }
        k += 1;
    }
    None
}

/// Whether a non-digit character occurs at or after `from`.
pub open spec fn spec_exists_nondigit(s: Seq<char>, from: int) -> bool {
    exists|k: int| from <= k < s.len() && !is_digit(s[k])
}

/// The first non-digit position at or after `from`.
pub open spec fn spec_first_nondigit(s: Seq<char>, from: int) -> int {
    choose|k: int|
        from <= k < s.len() && !is_digit(s[k]) && (forall|j: int| from <= j < k ==> is_digit(s[j]))
}

/// Finds the first non-digit position at or after `from`.
fn find_nondigit(s: &str, from: usize) -> (r: Option<usize>)
    ensures
        match r {
            Some(k) => from <= k < s@.len() && !is_digit(s@[k as int]) && (forall|j: int|
                from <= j < k ==> is_digit(s@[j])) && k as int == spec_first_nondigit(
                s@,
                from as int,
            ),
            None => !spec_exists_nondigit(s@, from as int),
        },
{
    let slen = s.unicode_len();
    let mut k: usize = from;
    while k < slen
        invariant
            slen == s@.len(),
            from <= k <= slen || (from > slen && k == from),
            forall|j: int| from <= j < k ==> is_digit(s@[j]),
        decreases slen - k,
    {
        if !is_digit_char(s.get_char(k)) {
            proof {
                let w = spec_first_nondigit(s@, from as int);
                assert(from <= k < s@.len() && !is_digit(s@[k as int]) && (forall|j: int|
                    from <= j < k ==> is_digit(s@[j])));
                if w != k as int {
                    assert(is_digit(s@[w]) || is_digit(s@[k as int]));
                }
            }
            return Some(k);
        }
        k += 1;
    }
    None
}

/// A title line: a single hash, whitespace, then some content.
pub open spec fn spec_title_line(l: Seq<char>) -> bool {
    l.len() >= 2 && l[0] == '#' && is_space(l[1]) && spec_exists_nonspace(l, 1)
}

/// The title a title line carries: the content after the hash and the
/// whitespace run; when that content has a colon — a ticket id prefix —
/// only what follows the first colon, trimmed.
pub open spec fn spec_line_title(l: Seq<char>) -> Seq<char> {
    let raw = l.subrange(spec_first_nonspace(l, 1), l.len() as int);
    if spec_exists_char(raw, 0, ':', ':') {
        spec_trim(raw.subrange(spec_first_char(raw, 0, ':', ':') + 1, raw.len() as int))
    } else {
        raw
    }
}

/// Whether some line is a title line.
pub open spec fn spec_has_title(lines: Seq<Seq<char>>) -> bool {
    exists|i: int| 0 <= i < lines.len() && spec_title_line(lines[i])
}

/// The index of the first title line.
pub open spec fn spec_first_title_line(lines: Seq<Seq<char>>) -> int {
    choose|i: int|
        0 <= i < lines.len() && spec_title_line(lines[i]) && (forall|j: int|
            0 <= j < i ==> !spec_title_line(lines[j]))
}

/// The title of a document: what its first title line carries.
pub open spec fn spec_extract_title(lines: Seq<Seq<char>>) -> Option<Seq<char>> {
    if spec_has_title(lines) {
        Some(spec_line_title(lines[spec_first_title_line(lines)]))
    } else {
        None
    }
}

/// Whether the line is a title line.
fn is_title_line(l: &str) -> (r: bool)
    ensures
        r == spec_title_line(l@),
{
    let n = l.unicode_len();
    if n < 2 {
        return false;
    }
    if l.get_char(0) != '#' {
        return false;
    }
    if !is_space_char(l.get_char(1)) {
        return false;
    }
    match find_nonspace(l, 1) {
        Some(_) => true,
        None => false,
    }
}

/// The title carried by a title line.
fn line_title(l: &str) -> (r: String)
    requires
        spec_title_line(l@),
    ensures
        r@ == spec_line_title(l@),
{
    let n = l.unicode_len();
    let k = match find_nonspace(l, 1) {
        Some(k) => k,
        None => unreached(),
    };
    let raw = l.substring_char(k, n);
    let rlen = raw.unicode_len();
    match find_char_from(raw, 0, ':', ':') {
        Some(c) => trim_str(raw.substring_char(c + 1, rlen)),
        None => String::from_str(raw),
    }
}

/// Extracts the title of a document from its lines.
pub fn extract_title(lines: &Vec<String>) -> (r: Option<String>)
    ensures
        match r {
            Some(t) => spec_extract_title(lines@.map_values(|l: String| l@)) == Some(t@),
            None => spec_extract_title(lines@.map_values(|l: String| l@)) is None,
        },
{
    let ghost view = lines@.map_values(|l: String| l@);
    let mut i: usize = 0;
    while i < lines.len()
        invariant
            view == lines@.map_values(|l: String| l@),
            i <= lines@.len(),
            forall|j: int| 0 <= j < i ==> !spec_title_line(view[j]),
        decreases lines@.len() - i,
    {
        if is_title_line(lines[i].as_str()) {
            proof {
                let w = spec_first_title_line(view);
                assert(0 <= i < view.len() && spec_title_line(view[i as int]) && (forall|j: int|
                    0 <= j < i ==> !spec_title_line(view[j])));
                if w != i as int {
                    assert(!spec_title_line(view[w]) || !spec_title_line(view[i as int]));
                }
            }
            return Some(line_title(lines[i].as_str()));
        }
        i += 1;
    }
    None
}

/// A marker line: the section header followed only by whitespace.
pub open spec fn spec_marker_line(l: Seq<char>, header: Seq<char>) -> bool {
    l.len() >= header.len() && l.subrange(0, header.len() as int) == header && (forall|k: int|
        header.len() <= k < l.len() ==> is_space(l[k]))
}

/// A second-level heading line, which ends a section.
pub open spec fn spec_h2_line(l: Seq<char>) -> bool {
    l.len() >= 2 && l[0] == '#' && l[1] == '#'
}

/// Whether some line is the section's marker.
pub open spec fn spec_has_marker(lines: Seq<Seq<char>>, header: Seq<char>) -> bool {
    exists|i: int| 0 <= i < lines.len() && spec_marker_line(lines[i], header)
}

/// The index of the first marker line.
pub open spec fn spec_first_marker(lines: Seq<Seq<char>>, header: Seq<char>) -> int {
    choose|i: int|
        0 <= i < lines.len() && spec_marker_line(lines[i], header) && (forall|j: int|
            0 <= j < i ==> !spec_marker_line(lines[j], header))
}

/// Where the section starting after line `m` ends: at the next heading
/// line, or at the end of the document.
pub open spec fn spec_section_end(lines: Seq<Seq<char>>, m: int) -> int {
    if exists|e: int| m < e < lines.len() && spec_h2_line(lines[e]) {
        choose|e: int|
            m < e < lines.len() && spec_h2_line(lines[e]) && (forall|j: int|
                m < j < e ==> !spec_h2_line(lines[j]))
    } else {
        lines.len() as int
    }
}

/// Lines joined back into one text with newlines.
pub open spec fn spec_join_lines(ls: Seq<Seq<char>>) -> Seq<char>
    decreases ls.len(),
{
    if ls.len() == 0 {
        Seq::empty()
    } else if ls.len() == 1 {
        ls[0]
    } else {
        spec_join_lines(ls.drop_last()).push('\n') + ls.last()
    }
}

/// A section's content: the lines between its marker and the next
/// heading (or the end), joined and trimmed. A marker on the last line
/// has no content.
pub open spec fn spec_extract_section(lines: Seq<Seq<char>>, header: Seq<char>) -> Option<
    Seq<char>,
> {
    if !spec_has_marker(lines, header) {
        None
    } else {
        let m = spec_first_marker(lines, header);
        if m == lines.len() - 1 {
            None
        } else {
            Some(spec_trim(spec_join_lines(lines.subrange(m + 1, spec_section_end(lines, m)))))
        }
    }
}

/// Whether the line is the section's marker.
fn is_marker_line(l: &str, header: &str) -> (r: bool)
    ensures
        r == spec_marker_line(l@, header@),
{
    if !matches_at(l, header, 0) {
        return false;
    }
    let n = l.unicode_len();
    let h = header.unicode_len();
    let mut k: usize = h;
    while k < n
        invariant
            n == l@.len(),
            h == header@.len(),
            h <= k <= n || (h > n && k == h),
            forall|j: int| h <= j < k ==> is_space(l@[j]),
        decreases n - k,
    {
        if !is_space_char(l.get_char(k)) {
            return false;
        }
        k += 1;
    }
    true
}

/// Whether the line is a second-level heading.
fn is_h2_line(l: &str) -> (r: bool)
    ensures
        r == spec_h2_line(l@),
{
    let n = l.unicode_len();
    n >= 2 && l.get_char(0) == '#' && l.get_char(1) == '#'
}

/// Finds the first marker line of the section.
fn find_marker(lines: &Vec<String>, header: &str) -> (r: Option<usize>)
    ensures
        match r {
            Some(m) => m < lines@.len() && spec_marker_line(
                lines@.map_values(|l: String| l@)[m as int],
                header@,
            ) && m as int == spec_first_marker(lines@.map_values(|l: String| l@), header@),
            None => !spec_has_marker(lines@.map_values(|l: String| l@), header@),
        },
{
    let ghost view = lines@.map_values(|l: String| l@);
    let mut i: usize = 0;
    while i < lines.len()
        invariant
            view == lines@.map_values(|l: String| l@),
            i <= lines@.len(),
            forall|j: int| 0 <= j < i ==> !spec_marker_line(view[j], header@),
        decreases lines@.len() - i,
    {
        if is_marker_line(lines[i].as_str(), header) {
            proof {
                let w = spec_first_marker(view, header@);
                assert(0 <= i < view.len() && spec_marker_line(view[i as int], header@) && (
                forall|j: int| 0 <= j < i ==> !spec_marker_line(view[j], header@)));
                if w != i as int {
                    assert(!spec_marker_line(view[w], header@) || !spec_marker_line(
                        view[i as int],
                        header@,
                    ));
                }
            }
            return Some(i);
        }
        i += 1;
    }
    None
}

/// Finds where the section starting after line `m` ends.
fn find_section_end(lines: &Vec<String>, m: usize) -> (r: usize)
    requires
        m < lines@.len(),
    ensures
        m < r <= lines@.len(),
        r as int == spec_section_end(lines@.map_values(|l: String| l@), m as int),
{
    let ghost view = lines@.map_values(|l: String| l@);
    let n = lines.len();
    let mut e: usize = m + 1;
    while e < n
        invariant
            view == lines@.map_values(|l: String| l@),
            n == lines@.len(),
            m < e <= n,
            forall|j: int| m < j < e ==> !spec_h2_line(view[j]),
        decreases n - e,
    {
        if is_h2_line(lines[e].as_str()) {
            proof {
                assert(view[e as int] == lines@[e as int]@);
                assert((m as int) < (e as int) && (e as int) < view.len() && spec_h2_line(
                    view[e as int],
                ));
                assert(exists|k: int| m < k < view.len() && spec_h2_line(view[k]));
                let w = choose|k: int|
                    m < k < view.len() && spec_h2_line(view[k]) && (forall|j: int|
                        m < j < k ==> !spec_h2_line(view[j]));
                if w != e as int {
                    assert(!spec_h2_line(view[w]) || !spec_h2_line(view[e as int]));
                }
            }
            return e;
        }
        e += 1;
    }
    proof {
        if exists|k: int| m < k < view.len() && spec_h2_line(view[k]) {
            let w = choose|k: int| m < k < view.len() && spec_h2_line(view[k]);
            assert(!spec_h2_line(view[w]));
        }
    }
    lines.len()
}

/// Joins the lines in `[from, to)` with newlines.
fn join_lines(lines: &Vec<String>, from: usize, to: usize) -> (r: String)
    requires
        from <= to <= lines@.len(),
    ensures
        r@ == spec_join_lines(lines@.map_values(|l: String| l@).subrange(from as int, to as int)),
{
    let ghost view = lines@.map_values(|l: String| l@);
    let mut out = String::new();
    let mut i: usize = from;
    proof {
        assert(view.subrange(from as int, from as int) =~= Seq::<Seq<char>>::empty());
    }
    while i < to
        invariant
            view == lines@.map_values(|l: String| l@),
            from <= i <= to <= lines@.len(),
            out@ == spec_join_lines(view.subrange(from as int, i as int)),
        decreases to - i,
    {
        let ghost part = view.subrange(from as int, i as int);
        let ghost part1 = view.subrange(from as int, i as int + 1);
        proof {
            assert(part1.drop_last() =~= part);
            assert(part1.last() == view[i as int]);
        }
        if i > from {
            push_char(&mut out, '\n');
        }
        out.append(lines[i].as_str());
        i += 1;
    }
    out
}

/// Extracts a section's content from the document's lines.
pub fn extract_section(lines: &Vec<String>, header: &str) -> (r: Option<String>)
    ensures
        match r {
            Some(v) => spec_extract_section(lines@.map_values(|l: String| l@), header@) == Some(
                v@,
            ),
            None => spec_extract_section(lines@.map_values(|l: String| l@), header@) is None,
        },
{
    let m = match find_marker(lines, header) {
        Some(m) => m,
        None => {
            return None;
        },
    };
    if m == lines.len() - 1 {
        return None;
    }
    let e = find_section_end(lines, m);
    let joined = join_lines(lines, m + 1, e);
    Some(trim_str(joined.as_str()))
}

/// A trimmed line without its leading dashes.
pub open spec fn spec_strip_dashes(t: Seq<char>) -> Seq<char>
    decreases t.len(),
{
    if t.len() > 0 && t[0] == '-' {
        spec_strip_dashes(t.drop_first())
    } else {
        t
    }
}

/// Stripping dashes keeps exactly the suffix after the leading run.
proof fn lemma_strip_dashes_range(t: Seq<char>, k: int)
    requires
        0 <= k <= t.len(),
        forall|j: int| 0 <= j < k ==> t[j] == '-',
        k < t.len() ==> t[k] != '-',
    ensures
        spec_strip_dashes(t) == t.subrange(k, t.len() as int),
    decreases t.len(),
{
    if t.len() > 0 && t[0] == '-' {
        assert(k >= 1);
        lemma_strip_dashes_range(t.drop_first(), k - 1);
        assert(t.drop_first().subrange(k - 1, t.drop_first().len() as int) =~= t.subrange(
            k,
            t.len() as int,
        ));
    } else {
        assert(k == 0);
        assert(t.subrange(0, t.len() as int) =~= t);
    }
}

/// The criterion a line carries: a trimmed line starting with a dash
/// yields its text after the dashes, trimmed again; other lines none.
pub open spec fn spec_criterion_of(l: Seq<char>) -> Option<Seq<char>> {
    let t = spec_trim(l);
    if t.len() > 0 && t[0] == '-' {
        Some(spec_trim(spec_strip_dashes(t)))
    } else {
        None
    }
}

/// The criteria carried by a run of lines, in order.
pub open spec fn spec_criteria_items(ls: Seq<Seq<char>>) -> Seq<Seq<char>>
    decreases ls.len(),
{
    if ls.len() == 0 {
        Seq::empty()
    } else {
        spec_criteria_items(ls.drop_last()) + (match spec_criterion_of(ls.last()) {
            Some(c) => seq![c],
            None => Seq::empty(),
        })
    }
}

/// The acceptance criteria of a document: the dash lines of the
/// `## Acceptance Criteria` section; none when the section is missing
/// or empty.
pub open spec fn spec_extract_criteria(lines: Seq<Seq<char>>) -> Seq<Seq<char>> {
    if !spec_has_marker(lines, "## Acceptance Criteria"@) {
        Seq::empty()
    } else {
        let m = spec_first_marker(lines, "## Acceptance Criteria"@);
        if m == lines.len() - 1 {
            Seq::empty()
        } else {
            spec_criteria_items(lines.subrange(m + 1, spec_section_end(lines, m)))
        }
    }
}

/// The criterion a line carries, if any.
fn criterion_of(l: &str) -> (r: Option<String>)
    ensures
        match r {
            Some(c) => spec_criterion_of(l@) == Some(c@),
            None => spec_criterion_of(l@) is None,
        },
{
    let t = trim_str(l);
    let n = t.as_str().unicode_len();
    if n == 0 {
        return None;
    }
    if t.as_str().get_char(0) != '-' {
        return None;
    }
    let mut k: usize = 0;
    while k < n && t.as_str().get_char(k) == '-'
        invariant
            n == t@.len(),
            k <= n,
            forall|j: int| 0 <= j < k ==> t@[j] == '-',
        decreases n - k,
    {
        k += 1;
    }
    proof {
        lemma_strip_dashes_range(t@, k as int);
    }
    let stripped = t.as_str().substring_char(k, n);
    Some(trim_str(stripped))
}

/// Extracts the acceptance criteria from the document's lines.
#[verifier::rlimit(60)]
#[verifier::spinoff_prover]
pub fn extract_criteria(lines: &Vec<String>) -> (r: Vec<String>)
    ensures
        r@.map_values(|c: String| c@) == spec_extract_criteria(
            lines@.map_values(|l: String| l@),
        ),
{
    let ghost view = lines@.map_values(|l: String| l@);
    let mut out: Vec<String> = Vec::new();
    let m = match find_marker(lines, "## Acceptance Criteria") {
        Some(m) => m,
        None => {
            proof {
                assert(out@.map_values(|c: String| c@) =~= Seq::<Seq<char>>::empty());
            }
            return out;
        },
    };
    if m == lines.len() - 1 {
        proof {
            assert(out@.map_values(|c: String| c@) =~= Seq::<Seq<char>>::empty());
        }
        return out;
    }
    let e = find_section_end(lines, m);
    let mut i: usize = m + 1;
    proof {
        assert(view.subrange(m as int + 1, m as int + 1) =~= Seq::<Seq<char>>::empty());
        assert(out@.map_values(|c: String| c@) =~= Seq::<Seq<char>>::empty());
    }
    while i < e
        invariant
            view == lines@.map_values(|l: String| l@),
            m < e <= lines@.len(),
            m + 1 <= i <= e,
            out@.map_values(|c: String| c@) == spec_criteria_items(
                view.subrange(m as int + 1, i as int),
            ),
        decreases e - i,
    {
        let ghost part = view.subrange(m as int + 1, i as int);
        let ghost part1 = view.subrange(m as int + 1, i as int + 1);
        proof {
            assert(part1.drop_last() =~= part);
            assert(part1.last() == view[i as int]);
        }
        let ghost done = out@.map_values(|c: String| c@);
        match criterion_of(lines[i].as_str()) {
            Some(c) => {
                proof {
                    assert(spec_criteria_items(part1) =~= done + seq![c@]);
                }
                out.push(c);
                proof {
                    assert(out@.map_values(|cc: String| cc@) =~= done + seq![c@]);
                }
            },
            None => {
                proof {
                    assert(spec_criteria_items(part1) =~= done + Seq::<Seq<char>>::empty());
                    assert(done + Seq::<Seq<char>>::empty() =~= done);
                }
            },
        }
        i += 1;
    }
    out
}

/// Where the digit run starting at `d0` ends.
pub open spec fn spec_digits_end(s: Seq<char>, d0: int) -> int {
    if spec_exists_nondigit(s, d0) {
        spec_first_nondigit(s, d0)
    } else {
        s.len() as int
    }
}

/// The epic a ticket names: after the first `**Epic:**`, skipping
/// whitespace, an `EPIC-` id with at least one digit.
pub open spec fn spec_epic_ref(s: Seq<char>) -> Option<Seq<char>> {
    if !spec_contains(s, "**Epic:**"@) {
        None
    } else {
        let start = spec_first_match(s, "**Epic:**"@) + 9;
        if !spec_exists_nonspace(s, start) {
            None
        } else {
            let q = spec_first_nonspace(s, start);
            if spec_matches_at(s, "EPIC-"@, q) && q + 5 < s.len() && is_digit(s[q + 5]) {
                Some(s.subrange(q, spec_digits_end(s, q + 5)))
            } else {
                None
            }
        }
    }
}

/// Extracts the epic reference from a ticket's content.
pub fn extract_epic(content: &str) -> (r: Option<String>)
    ensures
        match r {
            Some(e) => spec_epic_ref(content@) == Some(e@),
            None => spec_epic_ref(content@) is None,
        },
{
    proof {
        reveal_strlit("**Epic:**");
    }
    let n = content.unicode_len();
    let m = match find_substring(content, "**Epic:**") {
        Some(m) => m,
        None => {
            return None;
        },
    };
    proof {
        assert(m + 9 <= content@.len());
    }
    let q = match find_nonspace(content, m + 9) {
        Some(q) => q,
        None => {
            return None;
        },
    };
    if !matches_at(content, "EPIC-", q) {
        proof {
            reveal_strlit("EPIC-");
        }
        return None;
    }
    proof {
        reveal_strlit("EPIC-");
    }
    if q + 5 >= n {
        return None;
    }
    if !is_digit_char(content.get_char(q + 5)) {
        return None;
    }
    let dend = match find_nondigit(content, q + 5) {
        Some(d) => d,
        None => n,
    };
    Some(String::from_str(content.substring_char(q, dend)))
}

/// The epic id a file stem carries: the first `EPIC-` with at least one
/// digit, through the end of its digit run.
pub open spec fn spec_epic_token(s: Seq<char>) -> Option<Seq<char>> {
    if !spec_contains(s, "EPIC-"@) {
        None
    } else {
        let p = spec_first_match(s, "EPIC-"@);
        if p + 5 < s.len() && is_digit(s[p + 5]) {
            Some(s.subrange(p, spec_digits_end(s, p + 5)))
        } else {
            None
        }
    }
}

/// The id of an epic file: the `EPIC-` token of its stem, or the whole
/// stem when it carries none.
pub fn epic_id_from_stem(stem: &str) -> (r: String)
    ensures
        match spec_epic_token(stem@) {
            Some(t) => r@ == t,
            None => r@ == stem@,
        },
{
    proof {
        reveal_strlit("EPIC-");
    }
    let n = stem.unicode_len();
    let p = match find_substring(stem, "EPIC-") {
        Some(p) => p,
        None => {
            return String::from_str(stem);
        },
    };
    if p + 5 >= n {
        return String::from_str(stem);
    }
    if !is_digit_char(stem.get_char(p + 5)) {
        return String::from_str(stem);
    }
    let dend = match find_nondigit(stem, p + 5) {
        Some(d) => d,
        None => n,
    };
    String::from_str(stem.substring_char(p, dend))
}

/// The scanner state while collecting ticket references: outside any
/// cell; after a pipe, skipping space before `T`; after `T`, expecting
/// the dash; collecting the id's digits; or skipping space before the
/// closing pipe.
pub enum RefScan {
    Outside,
    SeekT,
    SeekDash,
    Digits(Seq<char>),
    SeekClose(Seq<char>),
}

/// The ticket ids referenced from table cells in the rest of the text:
/// a pipe, optional whitespace, `T-` with at least one digit, optional
/// whitespace and a closing pipe yield the id, and the scan resumes
/// after the closing pipe; a failed cell is abandoned at the next pipe.
pub open spec fn spec_refs_go(s: Seq<char>, i: int, st: RefScan) -> Seq<Seq<char>>
    decreases s.len() - i,
{
    if i < 0 || i >= s.len() {
        Seq::empty()
    } else {
        let c = s[i];
        match st {
            RefScan::Outside => if c == '|' {
                spec_refs_go(s, i + 1, RefScan::SeekT)
            } else {
                spec_refs_go(s, i + 1, RefScan::Outside)
            },
            RefScan::SeekT => if c == 'T' {
                spec_refs_go(s, i + 1, RefScan::SeekDash)
            } else if c == '|' || is_space(c) {
                spec_refs_go(s, i + 1, RefScan::SeekT)
            } else {
                spec_refs_go(s, i + 1, RefScan::Outside)
            },
            RefScan::SeekDash => if c == '-' {
                spec_refs_go(s, i + 1, RefScan::Digits("T-"@))
            } else if c == '|' {
                spec_refs_go(s, i + 1, RefScan::SeekT)
            } else {
                spec_refs_go(s, i + 1, RefScan::Outside)
            },
            RefScan::Digits(tok) => if is_digit(c) {
                spec_refs_go(s, i + 1, RefScan::Digits(tok.push(c)))
            } else if tok.len() > 2 && c == '|' {
                seq![tok] + spec_refs_go(s, i + 1, RefScan::Outside)
            } else if tok.len() > 2 && is_space(c) {
                spec_refs_go(s, i + 1, RefScan::SeekClose(tok))
            } else if c == '|' {
                spec_refs_go(s, i + 1, RefScan::SeekT)
            } else {
                spec_refs_go(s, i + 1, RefScan::Outside)
            },
            RefScan::SeekClose(tok) => if c == '|' {
                seq![tok] + spec_refs_go(s, i + 1, RefScan::Outside)
            } else if is_space(c) {
                spec_refs_go(s, i + 1, RefScan::SeekClose(tok))
            } else {
                spec_refs_go(s, i + 1, RefScan::Outside)
            },
        }
    }
}

/// The scanner state of the executable scan, with the digits collected
/// so far held beside it.
pub enum RefScanExec {
    Outside,
    SeekT,
    SeekDash,
    Digits,
    SeekClose,
}

/// The ghost state the executable scan stands in.
pub open spec fn spec_refs_state(st: &RefScanExec, tok: Seq<char>) -> RefScan {
    match st {
        RefScanExec::Outside => RefScan::Outside,
        RefScanExec::SeekT => RefScan::SeekT,
        RefScanExec::SeekDash => RefScan::SeekDash,
        RefScanExec::Digits => RefScan::Digits(tok),
        RefScanExec::SeekClose => RefScan::SeekClose(tok),
    }
}

/// Extracts the referenced ticket ids from an epic's content.
pub fn extract_ticket_refs(content: &str) -> (r: Vec<String>)
    ensures
        r@.map_values(|t: String| t@) == spec_refs_go(content@, 0, RefScan::Outside),
{
    let n = content.unicode_len();
    let mut out: Vec<String> = Vec::new();
    let mut st = RefScanExec::Outside;
    let mut tok = String::new();
    let mut k: usize = 0;
    proof {
        assert(out@.map_values(|t: String| t@) =~= Seq::<Seq<char>>::empty());
        assert(Seq::<Seq<char>>::empty() + spec_refs_go(content@, 0, RefScan::Outside)
            =~= spec_refs_go(content@, 0, RefScan::Outside));
    }
    while k < n
        invariant
            n == content@.len(),
            k <= n,
            spec_refs_go(content@, 0, RefScan::Outside) == out@.map_values(|t: String| t@)
                + spec_refs_go(content@, k as int, spec_refs_state(&st, tok@)),
        decreases n - k,
    {
        let c = content.get_char(k);
        let ghost stg = spec_refs_state(&st, tok@);
        match st {
            RefScanExec::Outside => {
                if c == '|' {
                    st = RefScanExec::SeekT;
                }
            },
            RefScanExec::SeekT => {
                if c == 'T' {
                    st = RefScanExec::SeekDash;
                } else if c == '|' || is_space_char(c) {
                } else {
                    st = RefScanExec::Outside;
                }
            },
            RefScanExec::SeekDash => {
                if c == '-' {
                    st = RefScanExec::Digits;
                    tok = String::from_str("T-");
                    proof {
                        reveal_strlit("T-");
                    }
                } else if c == '|' {
                    st = RefScanExec::SeekT;
                } else {
                    st = RefScanExec::Outside;
                }
            },
            RefScanExec::Digits => {
                let toklen = tok.as_str().unicode_len();
                if is_digit_char(c) {
                    push_char(&mut tok, c);
                } else if toklen > 2 && c == '|' {
                    let ghost done = out@.map_values(|t: String| t@);
                    proof {
                        assert(done + (seq![tok@] + spec_refs_go(
                            content@,
                            k as int + 1,
                            RefScan::Outside,
                        )) =~= (done + seq![tok@]) + spec_refs_go(
                            content@,
                            k as int + 1,
                            RefScan::Outside,
                        ));
                    }
                    let emitted = tok.clone();
                    out.push(emitted);
                    proof {
                        assert(out@.map_values(|t: String| t@) =~= done + seq![tok@]);
                    }
                    st = RefScanExec::Outside;
                } else if toklen > 2 && is_space_char(c) {
                    st = RefScanExec::SeekClose;
                } else if c == '|' {
                    st = RefScanExec::SeekT;
                } else {
                    st = RefScanExec::Outside;
                }
            },
            RefScanExec::SeekClose => {
                if c == '|' {
                    let ghost done = out@.map_values(|t: String| t@);
                    proof {
                        assert(done + (seq![tok@] + spec_refs_go(
                            content@,
                            k as int + 1,
                            RefScan::Outside,
                        )) =~= (done + seq![tok@]) + spec_refs_go(
                            content@,
                            k as int + 1,
                            RefScan::Outside,
                        ));
                    }
                    let emitted = tok.clone();
                    out.push(emitted);
                    proof {
                        assert(out@.map_values(|t: String| t@) =~= done + seq![tok@]);
                    }
                    st = RefScanExec::Outside;
                } else if is_space_char(c) {
                } else {
                    st = RefScanExec::Outside;
                }
            },
        }
        k += 1;
    }
    proof {
        assert(spec_refs_go(content@, n as int, spec_refs_state(&st, tok@)) =~= Seq::<
            Seq<char>,
        >::empty());
        assert(out@.map_values(|t: String| t@) + Seq::<Seq<char>>::empty() =~= out@.map_values(
            |t: String| t@,
        ));
    }
    out
}

/// The cells of the remaining text, split at each pipe, with `cur` the
/// cell accumulated so far.
pub open spec fn spec_cells_go(s: Seq<char>, cur: Seq<char>) -> Seq<Seq<char>>
    decreases s.len(),
{
    if s.len() == 0 {
        seq![cur]
    } else if s[0] == '|' {
        seq![cur] + spec_cells_go(s.drop_first(), Seq::empty())
    } else {
        spec_cells_go(s.drop_first(), cur.push(s[0]))
    }
}

/// A line split at its pipes, boundary pipes yielding empty cells.
pub open spec fn spec_split_cells(l: Seq<char>) -> Seq<Seq<char>> {
    spec_cells_go(l, Seq::empty())
}

/// Splits a table line into its cells.
pub fn split_cells(l: &str) -> (r: Vec<String>)
    ensures
        r@.map_values(|c: String| c@) == spec_split_cells(l@),
{
    let n = l.unicode_len();
    let mut out: Vec<String> = Vec::new();
    let mut cur = String::new();
    let mut k: usize = 0;
    proof {
        assert(l@.subrange(0, n as int) =~= l@);
        assert(out@.map_values(|c: String| c@) =~= Seq::<Seq<char>>::empty());
        assert(Seq::<Seq<char>>::empty() + spec_cells_go(l@, cur@) =~= spec_cells_go(l@, cur@));
    }
    while k < n
        invariant
            n == l@.len(),
            k <= n,
            spec_split_cells(l@) == out@.map_values(|c: String| c@) + spec_cells_go(
                l@.subrange(k as int, n as int),
                cur@,
            ),
        decreases n - k,
    {
        let ghost suffix = l@.subrange(k as int, n as int);
        let c = l.get_char(k);
        proof {
            assert(suffix[0] == c);
            assert(suffix.drop_first() =~= l@.subrange(k as int + 1, n as int));
        }
        if c == '|' {
            let ghost done = out@.map_values(|cc: String| cc@);
            proof {
                assert(spec_cells_go(suffix, cur@) == seq![cur@] + spec_cells_go(
                    suffix.drop_first(),
                    Seq::empty(),
                ));
                assert(done + (seq![cur@] + spec_cells_go(suffix.drop_first(), Seq::empty()))
                    =~= (done + seq![cur@]) + spec_cells_go(suffix.drop_first(), Seq::empty()));
            }
            let cell = cur;
            out.push(cell);
            proof {
                assert(out@.map_values(|cc: String| cc@) =~= done + seq![out@.last()@]);
            }
            cur = String::new();
        } else {
            push_char(&mut cur, c);
        }
        k += 1;
    }
    let ghost done = out@.map_values(|c: String| c@);
    proof {
        assert(l@.subrange(n as int, n as int) =~= Seq::<char>::empty());
        assert(spec_cells_go(l@.subrange(n as int, n as int), cur@) == seq![cur@]);
    }
    out.push(cur);
    proof {
        assert(out@.map_values(|c: String| c@) =~= done + seq![out@.last()@]);
    }
    out
}

/// A table row rewritten to a new ticket status: a line that mentions
/// the ticket id, starts with a pipe and has at least four cells is
/// rebuilt as `| <cell one> | <cell two> | <new status> |` with the
/// kept cells trimmed; any other line is unchanged.
pub open spec fn spec_update_row(l: Seq<char>, ticket_id: Seq<char>, new_status: Seq<char>) -> Seq<
    char,
> {
    if spec_contains(l, ticket_id) && l.len() > 0 && l[0] == '|' && spec_split_cells(l).len()
        >= 4 {
        "| "@ + spec_trim(spec_split_cells(l)[1]) + " | "@ + spec_trim(spec_split_cells(l)[2])
            + " | "@ + new_status + " |"@
    } else {
        l
    }
}

/// Rewrites one table line to the new status, if it is the ticket's row.
fn update_row(l: &str, ticket_id: &str, new_status: &str) -> (r: String)
    ensures
        r@ == spec_update_row(l@, ticket_id@, new_status@),
{
    if !crate::strutil::contains_substring(l, ticket_id) {
        return String::from_str(l);
    }
    let n = l.unicode_len();
    if n == 0 || l.get_char(0) != '|' {
        return String::from_str(l);
    }
    let parts = split_cells(l);
    if parts.len() < 4 {
        proof {
            assert(spec_split_cells(l@).len() == parts@.map_values(|c: String| c@).len());
        }
        return String::from_str(l);
    }
    proof {
        assert(spec_split_cells(l@)[1] == parts@.map_values(|c: String| c@)[1]);
        assert(spec_split_cells(l@)[2] == parts@.map_values(|c: String| c@)[2]);
    }
    let mut row = String::from_str("| ");
    let one = trim_str(parts[1].as_str());
    row.append(one.as_str());
    row.append(" | ");
    let two = trim_str(parts[2].as_str());
    row.append(two.as_str());
    row.append(" | ");
    row.append(new_status);
    row.append(" |");
    row
}

/// The epic content with the ticket's table row moved to the new
/// status: every line rewritten by the row rule, joined back with
/// newlines.
pub open spec fn spec_update_epic_rows(
    content: Seq<char>,
    ticket_id: Seq<char>,
    new_status: Seq<char>,
) -> Seq<char> {
    spec_join_lines(
        spec_lines(content).map_values(|l: Seq<char>| spec_update_row(l, ticket_id, new_status)),
    )
}

/// Rewrites the ticket's status cell inside an epic's markdown table
/// and returns the updated content.
pub fn update_epic_ticket_status(content: &str, ticket_id: &str, new_status: &str) -> (r: String)
    ensures
        r@ == spec_update_epic_rows(content@, ticket_id@, new_status@),
{
    let ghost mapped = spec_lines(content@).map_values(
        |l: Seq<char>| spec_update_row(l, ticket_id@, new_status@),
    );
    let lines = split_lines(content);
    let mut updated: Vec<String> = Vec::new();
    let mut k: usize = 0;
    while k < lines.len()
        invariant
            lines@.map_values(|l: String| l@) == spec_lines(content@),
            mapped == spec_lines(content@).map_values(
                |l: Seq<char>| spec_update_row(l, ticket_id@, new_status@),
            ),
            k <= lines@.len(),
            updated@.len() == k,
            forall|i: int| 0 <= i < k ==> #[trigger] updated@[i]@ == mapped[i],
        decreases lines@.len() - k,
    {
        let row = update_row(lines[k].as_str(), ticket_id, new_status);
        proof {
            assert(spec_lines(content@)[k as int] == lines@[k as int]@);
            assert(mapped[k as int] == spec_update_row(
                lines@[k as int]@,
                ticket_id@,
                new_status@,
            ));
        }
        updated.push(row);
        k += 1;
    }
    let joined = join_lines(&updated, 0, updated.len());
    proof {
        assert(updated@.map_values(|l: String| l@) =~= mapped);
        assert(updated@.map_values(|l: String| l@).subrange(0, updated@.len() as int)
            =~= updated@.map_values(|l: String| l@));
    }
    joined
}

/// One ticket file as the hosting application read it: the file stem,
/// the content, the folder it sat in, and the full path.
pub struct TicketSource {
    pub file_stem: String,
    pub content: String,
    pub folder: String,
    pub file_path: String,
}

/// One epic file as the hosting application read it.
pub struct EpicSource {
    pub file_stem: String,
    pub content: String,
    pub file_path: String,
}

/// The relation between a parsed ticket and its source: id from the
/// stem, title from the first title line (the stem when none), epic
/// from the epic reference (empty when none), description from its
/// section (empty when none), criteria from theirs, status from the
/// folder, and the path carried through.
pub open spec fn spec_ticket_from(
    t: Ticket,
    stem: Seq<char>,
    content: Seq<char>,
    folder: Seq<char>,
    path: Seq<char>,
) -> bool {
    &&& t.id@ == stem
    &&& (match spec_extract_title(spec_lines(content)) {
        Some(v) => t.title@ == v,
        None => t.title@ == stem,
    })
    &&& (match spec_epic_ref(content) {
        Some(v) => t.epic@ == v,
        None => t.epic@ == Seq::<char>::empty(),
    })
    &&& (match spec_extract_section(spec_lines(content), "## Description"@) {
        Some(v) => t.description@ == v,
        None => t.description@ == Seq::<char>::empty(),
    })
    &&& t.criteria@.map_values(|c: String| c@) == spec_extract_criteria(spec_lines(content))
    &&& t.status@ == spec_folder_to_status(folder)
    &&& t.file_path@ == path
}

/// The relation between a parsed epic and its source: id from the
/// stem's `EPIC-` token (the stem when none), title from the first
/// title line (the id when none), scope from its section (empty when
/// none), tickets from the table references, the path carried through.
pub open spec fn spec_epic_from(e: Epic, stem: Seq<char>, content: Seq<char>, path: Seq<char>) -> bool {
    &&& (match spec_epic_token(stem) {
        Some(v) => e.id@ == v,
        None => e.id@ == stem,
    })
    &&& (match spec_extract_title(spec_lines(content)) {
        Some(v) => e.title@ == v,
        None => e.title@ == e.id@,
    })
    &&& (match spec_extract_section(spec_lines(content), "## Scope"@) {
        Some(v) => e.scope@ == v,
        None => e.scope@ == Seq::<char>::empty(),
    })
    &&& e.tickets@.map_values(|t: String| t@) == spec_refs_go(content, 0, RefScan::Outside)
    &&& e.file_path@ == path
}

/// Parses one ticket file's content.
pub fn parse_ticket_content(file_stem: &str, content: &str, folder: &str, file_path: &str) -> (t:
    Ticket)
    ensures
        spec_ticket_from(t, file_stem@, content@, folder@, file_path@),
{
    let lines = split_lines(content);
    let title = match extract_title(&lines) {
        Some(v) => v,
        None => String::from_str(file_stem),
    };
    let epic = match extract_epic(content) {
        Some(v) => v,
        None => String::new(),
    };
    let description = match extract_section(&lines, "## Description") {
        Some(v) => v,
        None => String::new(),
    };
    let criteria = extract_criteria(&lines);
    let status = folder_to_status(folder);
    Ticket {
        id: String::from_str(file_stem),
        title,
        epic,
        description,
        criteria,
        status,
        file_path: String::from_str(file_path),
    }
}

/// Parses one epic file's content.
pub fn parse_epic_content(file_stem: &str, content: &str, file_path: &str) -> (e: Epic)
    ensures
        spec_epic_from(e, file_stem@, content@, file_path@),
{
    let lines = split_lines(content);
    let id = epic_id_from_stem(file_stem);
    let title = match extract_title(&lines) {
        Some(v) => v,
        None => id.clone(),
    };
    let scope = match extract_section(&lines, "## Scope") {
        Some(v) => v,
        None => String::new(),
    };
    let tickets = extract_ticket_refs(content);
    Epic { id, title, scope, tickets, file_path: String::from_str(file_path) }
}

/// Parses every ticket file the hosting application read from the
/// project's ticket folders, in order.
pub fn parse_tickets(sources: &Vec<TicketSource>) -> (r: Vec<Ticket>)
    ensures
        r@.len() == sources@.len(),
        forall|i: int|
            0 <= i < r@.len() ==> spec_ticket_from(
                #[trigger] r@[i],
                sources@[i].file_stem@,
                sources@[i].content@,
                sources@[i].folder@,
                sources@[i].file_path@,
            ),
{
    let mut out: Vec<Ticket> = Vec::new();
    let mut k: usize = 0;
    while k < sources.len()
        invariant
            k <= sources@.len(),
            out@.len() == k,
            forall|i: int|
                0 <= i < k ==> spec_ticket_from(
                    #[trigger] out@[i],
                    sources@[i].file_stem@,
                    sources@[i].content@,
                    sources@[i].folder@,
                    sources@[i].file_path@,
                ),
        decreases sources@.len() - k,
    {
        let s = &sources[k];
        out.push(
            parse_ticket_content(
                s.file_stem.as_str(),
                s.content.as_str(),
                s.folder.as_str(),
                s.file_path.as_str(),
            ),
        );
        k += 1;
    }
    out
}

/// Parses every epic file the hosting application read from the
/// project's epics folder, in order.
pub fn parse_epics(sources: &Vec<EpicSource>) -> (r: Vec<Epic>)
    ensures
        r@.len() == sources@.len(),
        forall|i: int|
            0 <= i < r@.len() ==> spec_epic_from(
                #[trigger] r@[i],
                sources@[i].file_stem@,
                sources@[i].content@,
                sources@[i].file_path@,
            ),
{
    let mut out: Vec<Epic> = Vec::new();
    let mut k: usize = 0;
    while k < sources.len()
        invariant
            k <= sources@.len(),
            out@.len() == k,
            forall|i: int|
                0 <= i < k ==> spec_epic_from(
                    #[trigger] out@[i],
                    sources@[i].file_stem@,
                    sources@[i].content@,
                    sources@[i].file_path@,
                ),
        decreases sources@.len() - k,
    {
        let s = &sources[k];
        out.push(parse_epic_content(s.file_stem.as_str(), s.content.as_str(), s.file_path.as_str()));
        k += 1;
    }
    out
}

} // verus!

