//! Application configuration defaults and the naming rules for project
//! folders: extracting a project's name from its path, sanitising it
//! into a folder name, and picking a fresh folder name next to existing
//! ones.

use vstd::prelude::*;

use crate::strutil::push_char;
use crate::strutil::spec_digit;
use crate::strutil::spec_udec;
use crate::strutil::str_eq;
use crate::strutil::u64_to_string;

verus! {

/// The default user-interface theme.
pub fn default_theme() -> (r: String)
    ensures
        r@ == "dark"@,
{
    String::from_str("dark")
}

/// The default editor mode.
pub fn default_editor_mode() -> (r: String)
    ensures
        r@ == "kanban"@,
{
    String::from_str("kanban")
}

/// The persisted application configuration.
pub struct AppConfig {
    pub project_path: Option<String>,
    pub theme: String,
    pub sidebar_collapsed: bool,
    pub default_editor_mode: String,
}

impl Default for AppConfig {
    /// The configuration before anything was saved: no project, the
    /// default theme and editor mode, the sidebar expanded.
    fn default() -> (r: Self)
        ensures
            r.project_path is None,
            r.theme@ == "dark"@,
            !r.sidebar_collapsed,
            r.default_editor_mode@ == "kanban"@,
    {
        AppConfig {
            project_path: None,
            theme: default_theme(),
            sidebar_collapsed: false,
            default_editor_mode: default_editor_mode(),
        }
    }
}

impl Clone for AppConfig {
    fn clone(&self) -> (r: Self)
        ensures
            r == *self,
    {
        AppConfig {
            project_path: match &self.project_path {
                Some(p) => Some(p.clone()),
                None => None,
            },
            theme: self.theme.clone(),
            sidebar_collapsed: self.sidebar_collapsed,
            default_editor_mode: self.default_editor_mode.clone(),
        }
    }
}

/// Whether a character survives folder-name sanitisation: ASCII letters
/// and digits, the hyphen and the underscore.
pub open spec fn spec_keep_char(c: char) -> bool {
    ||| ('a' <= c && c <= 'z')
    ||| ('A' <= c && c <= 'Z')
    ||| ('0' <= c && c <= '9')
    ||| c == '-'
    ||| c == '_'
}

/// A folder name from an arbitrary name: every character outside the
/// kept set becomes an underscore.
pub open spec fn spec_sanitize(s: Seq<char>) -> Seq<char> {
    s.map_values(
        |c: char|
            if spec_keep_char(c) {
                c
            } else {
                '_'
            },
    )
}

/// Sanitises a name into a folder name, character by character.
pub fn sanitize_folder_name(name: &str) -> (r: String)
    ensures
        r@ == spec_sanitize(name@),
{
    let n = name.unicode_len();
    let mut out = String::new();
    let mut k: usize = 0;
    while k < n
        invariant
            n == name@.len(),
            k <= n,
            out@ == spec_sanitize(name@.subrange(0, k as int)),
        decreases n - k,
    {
        let c = name.get_char(k);
        let kept = ('a' <= c && c <= 'z') || ('A' <= c && c <= 'Z') || ('0' <= c && c <= '9') || c
            == '-' || c == '_';
        if kept {
            push_char(&mut out, c);
        } else {
            push_char(&mut out, '_');
        }
        proof {
            assert(out@ =~= spec_sanitize(name@.subrange(0, k as int + 1)));
        }
        k += 1;
    }
    proof {
        assert(name@.subrange(0, n as int) =~= name@);
    }
    out
}

/// `s` without its trailing slashes.
pub open spec fn spec_strip_trailing_slashes(s: Seq<char>) -> Seq<char>
    decreases s.len(),
{
    if s.len() > 0 && s.last() == '/' {
        spec_strip_trailing_slashes(s.drop_last())
    } else {
        s
    }
}

/// What follows the last slash of `s`; all of `s` when it has none.
pub open spec fn spec_after_last_slash(s: Seq<char>) -> Seq<char>
    decreases s.len(),
{
    if s.len() == 0 {
        s
    } else if s.last() == '/' {
        Seq::empty()
    } else {
        spec_after_last_slash(s.drop_last()).push(s.last())
    }
}

/// The name of the project at a path: the last path component, with
/// trailing slashes ignored; `project` when the path has no component.
pub open spec fn spec_project_name(s: Seq<char>) -> Seq<char> {
    if spec_after_last_slash(spec_strip_trailing_slashes(s)).len() == 0 {
        "project"@
    } else {
        spec_after_last_slash(spec_strip_trailing_slashes(s))
    }
}

/// Stripping trailing slashes keeps exactly the prefix up to the last
/// non-slash character.
proof fn lemma_strip_range(s: Seq<char>, j: int)
    requires
        0 <= j <= s.len(),
        forall|k: int| j <= k < s.len() ==> s[k] == '/',
        j > 0 ==> s[j - 1] != '/',
    ensures
        spec_strip_trailing_slashes(s) == s.subrange(0, j),
    decreases s.len(),
{
    if s.len() > 0 && s.last() == '/' {
        assert(j < s.len());
        lemma_strip_range(s.drop_last(), j);
        assert(s.drop_last().subrange(0, j) =~= s.subrange(0, j));
    } else {
        assert(j == s.len());
        assert(s.subrange(0, s.len() as int) =~= s);
    }
}

/// The run of non-slash characters ending a sequence is what follows
/// its last slash.
proof fn lemma_last_component(s: Seq<char>, i: int)
    requires
        0 <= i <= s.len(),
        forall|k: int| i <= k < s.len() ==> s[k] != '/',
        i > 0 ==> s[i - 1] == '/',
    ensures
        spec_after_last_slash(s) == s.subrange(i, s.len() as int),
    decreases s.len(),
{
    if s.len() == 0 {
        assert(s.subrange(0, 0) =~= s);
    } else if s.last() == '/' {
        assert(i == s.len());
        assert(s.subrange(i, s.len() as int) =~= Seq::<char>::empty());
    } else {
        assert(i < s.len() || i == s.len());
        if i == s.len() {
            assert(s[i - 1] != '/');
            assert(false);
        }
        lemma_last_component(s.drop_last(), i);
        assert(s.subrange(i, s.len() as int) =~= s.drop_last().subrange(
            i,
            s.drop_last().len() as int,
        ).push(s.last()));
    }
}

/// Extracts the project name from a path: its last component, with
/// trailing slashes ignored; `project` when none remains.
pub fn extract_project_name(project_path: &str) -> (r: String)
    ensures
        r@ == spec_project_name(project_path@),
{
    let n = project_path.unicode_len();
    let mut j: usize = n;
    while j > 0 && project_path.get_char(j - 1) == '/'
        invariant
            n == project_path@.len(),
            j <= n,
            forall|k: int| j <= k < n ==> project_path@[k] == '/',
        decreases j,
    {
        j -= 1;
    }
    let mut i: usize = j;
    while i > 0 && project_path.get_char(i - 1) != '/'
        invariant
            n == project_path@.len(),
            i <= j <= n,
            forall|k: int| i <= k < j ==> project_path@[k] != '/',
        decreases i,
    {
        i -= 1;
    }
    proof {
        lemma_strip_range(project_path@, j as int);
        let stripped = project_path@.subrange(0, j as int);
        assert forall|k: int| i <= k < stripped.len() implies stripped[k] != '/' by {
            assert(stripped[k] == project_path@[k]);
        }
        lemma_last_component(stripped, i as int);
        assert(stripped.subrange(i as int, j as int) =~= project_path@.subrange(
            i as int,
            j as int,
        ));
    }
    if i == j {
        String::from_str("project")
    } else {
        let component = project_path.substring_char(i, j);
        String::from_str(component)
    }
}

/// Whether one normalised path lies inside another: the parent is a
/// prefix and ends exactly at a component boundary. A backup location
/// inside the project itself is rejected on this test.
pub open spec fn spec_path_inside(child: Seq<char>, parent: Seq<char>) -> bool {
    crate::strutil::spec_matches_at(child, parent, 0) && (child.len() == parent.len() || child[
        parent.len() as int
    ] == '/')
}

/// Whether `child` lies inside `parent`, both as normalised absolute
/// paths.
pub fn path_is_inside(child: &str, parent: &str) -> (r: bool)
    ensures
        r == spec_path_inside(child@, parent@),
{
    if !crate::strutil::matches_at(child, parent, 0) {
        return false;
    }
    let clen = child.unicode_len();
    let plen = parent.unicode_len();
    clen == plen || child.get_char(plen) == '/'
}

/// The resources subfolder a file extension files under.
pub open spec fn spec_resource_subfolder(ext: Seq<char>) -> Seq<char> {
    if ext == "png"@ || ext == "jpg"@ || ext == "jpeg"@ || ext == "gif"@ || ext == "svg"@ || ext
        == "webp"@ || ext == "bmp"@ || ext == "ico"@ {
        "images"@
    } else if ext == "pdf"@ || ext == "doc"@ || ext == "docx"@ || ext == "xls"@ || ext == "xlsx"@
        || ext == "ppt"@ || ext == "pptx"@ {
        "documents"@
    } else if ext == "fig"@ || ext == "sketch"@ || ext == "xd"@ || ext == "psd"@ || ext == "ai"@ {
        "designs"@
    } else if ext == "md"@ || ext == "markdown"@ || ext == "txt"@ {
        "text"@
    } else if ext == "mp4"@ || ext == "mov"@ || ext == "avi"@ || ext == "mkv"@ || ext == "webm"@ {
        "videos"@
    } else if ext == "mp3"@ || ext == "wav"@ || ext == "ogg"@ || ext == "m4a"@ {
        "audio"@
    } else if ext == "zip"@ || ext == "tar"@ || ext == "gz"@ || ext == "rar"@ || ext == "7z"@ {
        "archives"@
    } else {
        "other"@
    }
}

/// Maps a lower-cased file extension to the resources subfolder an
/// uploaded file is organised into.
pub fn resource_subfolder(ext: &str) -> (r: String)
    ensures
        r@ == spec_resource_subfolder(ext@),
{
    if str_eq(ext, "png") || str_eq(ext, "jpg") || str_eq(ext, "jpeg") || str_eq(ext, "gif")
        || str_eq(ext, "svg") || str_eq(ext, "webp") || str_eq(ext, "bmp") || str_eq(ext, "ico") {
        String::from_str("images")
    } else if str_eq(ext, "pdf") || str_eq(ext, "doc") || str_eq(ext, "docx") || str_eq(
        ext,
        "xls",
    ) || str_eq(ext, "xlsx") || str_eq(ext, "ppt") || str_eq(ext, "pptx") {
        String::from_str("documents")
    } else if str_eq(ext, "fig") || str_eq(ext, "sketch") || str_eq(ext, "xd") || str_eq(
        ext,
        "psd",
    ) || str_eq(ext, "ai") {
        String::from_str("designs")
    } else if str_eq(ext, "md") || str_eq(ext, "markdown") || str_eq(ext, "txt") {
        String::from_str("text")
    } else if str_eq(ext, "mp4") || str_eq(ext, "mov") || str_eq(ext, "avi") || str_eq(
        ext,
        "mkv",
    ) || str_eq(ext, "webm") {
        String::from_str("videos")
    } else if str_eq(ext, "mp3") || str_eq(ext, "wav") || str_eq(ext, "ogg") || str_eq(
        ext,
        "m4a",
    ) {
        String::from_str("audio")
    } else if str_eq(ext, "zip") || str_eq(ext, "tar") || str_eq(ext, "gz") || str_eq(ext, "rar")
        || str_eq(ext, "7z") {
        String::from_str("archives")
    } else {
        String::from_str("other")
    }
}

/// Each decimal digit is one character, and distinct digits are
/// distinct characters.
proof fn lemma_digit_facts()
    ensures
        forall|d: int| 0 <= d <= 9 ==> (#[trigger] spec_digit(d)).len() == 1,
        forall|d1: int, d2: int|
            0 <= d1 <= 9 && 0 <= d2 <= 9 && d1 != d2 ==> spec_digit(d1)[0] != spec_digit(d2)[0],
{
    reveal_strlit("0");
    reveal_strlit("1");
    reveal_strlit("2");
    reveal_strlit("3");
    reveal_strlit("4");
    reveal_strlit("5");
    reveal_strlit("6");
    reveal_strlit("7");
    reveal_strlit("8");
    reveal_strlit("9");
}

/// Decimal renderings of numbers below ten are one character; above,
/// at least two.
proof fn lemma_udec_len(n: int)
    requires
        n >= 0,
    ensures
        n < 10 ==> spec_udec(n).len() == 1,
        n >= 10 ==> spec_udec(n).len() >= 2,
    decreases n,
{
    lemma_digit_facts();
    if n >= 10 {
        lemma_udec_len(n / 10);
    }
}

/// Decimal rendering is injective: equal renderings mean equal numbers.
proof fn lemma_udec_injective(a: int, b: int)
    requires
        0 <= a,
        0 <= b,
        spec_udec(a) == spec_udec(b),
    ensures
        a == b,
    decreases a,
{
    lemma_digit_facts();
    lemma_udec_len(a);
    lemma_udec_len(b);
    if a < 10 && b < 10 {
        if a != b {
            assert(spec_digit(a)[0] != spec_digit(b)[0]);
        }
    } else if a < 10 || b < 10 {
        assert(spec_udec(a).len() != spec_udec(b).len());
    } else {
        let sa = spec_udec(a);
        let sb = spec_udec(b);
        assert(sa == spec_udec(a / 10) + spec_digit(a % 10));
        assert(sb == spec_udec(b / 10) + spec_digit(b % 10));
        assert(sa.last() == spec_digit(a % 10)[0]);
        assert(sb.last() == spec_digit(b % 10)[0]);
        if a % 10 != b % 10 {
            assert(spec_digit(a % 10)[0] != spec_digit(b % 10)[0]);
        }
        assert(a % 10 == b % 10);
        assert(sa.drop_last() =~= spec_udec(a / 10));
        assert(sb.drop_last() =~= spec_udec(b / 10));
        lemma_udec_injective(a / 10, b / 10);
        vstd::arithmetic::div_mod::lemma_fundamental_div_mod(a, 10);
        vstd::arithmetic::div_mod::lemma_fundamental_div_mod(b, 10);
    }
}

/// The `k`-th candidate folder name over a sanitised base name: the
/// base itself, then `base-1`, `base-2`, and so on.
pub open spec fn spec_candidate(base: Seq<char>, k: int) -> Seq<char> {
    if k == 0 {
        base
    } else {
        base + "-"@ + spec_udec(k)
    }
}

/// Distinct candidate indices give distinct names.
proof fn lemma_candidates_distinct(base: Seq<char>, j: int, k: int)
    requires
        0 <= j < k,
    ensures
        spec_candidate(base, j) != spec_candidate(base, k),
{
    reveal_strlit("-");
    lemma_udec_len(j);
    lemma_udec_len(k);
    if j == 0 {
        assert(spec_candidate(base, k).len() > base.len());
    } else {
        if spec_candidate(base, j) == spec_candidate(base, k) {
            let sj = spec_udec(j);
            let sk = spec_udec(k);
            let p = (base + "-"@).len() as int;
            assert(sj =~= spec_candidate(base, j).subrange(
                p,
                spec_candidate(base, j).len() as int,
            ));
            assert(sk =~= spec_candidate(base, k).subrange(
                p,
                spec_candidate(base, k).len() as int,
            ));
            lemma_udec_injective(j, k);
        }
    }
}

/// Candidate names are pairwise distinct, so no more of them can be
/// taken than there are existing names.
proof fn lemma_candidate_pigeonhole(existing: Seq<Seq<char>>, base: Seq<char>, m: int)
    requires
        m >= 0,
        forall|j: int|
            0 <= j < m ==> exists|e: int|
                0 <= e < existing.len() && existing[e] == #[trigger] spec_candidate(base, j),
    ensures
        m <= existing.len(),
{
    broadcast use vstd::seq_lib::seq_to_set_is_finite;
    broadcast use vstd::set::group_set_axioms;

    let cands = Seq::new(m as nat, |j: int| spec_candidate(base, j));
    assert forall|i: int, j: int| 0 <= i < j < m implies cands[i] != cands[j] by {
        lemma_candidates_distinct(base, i, j);
    }
    assert(cands.no_duplicates());
    cands.unique_seq_to_set();
    existing.lemma_cardinality_of_set();
    assert forall|v: Seq<char>| cands.to_set().contains(v) implies existing.to_set().contains(
        v,
    ) by {
        let j = choose|j: int| 0 <= j < cands.len() && cands[j] == v;
        let e = choose|e: int| 0 <= e < existing.len() && existing[e] == spec_candidate(base, j);
        assert(existing[e] == v);
        assert(existing.contains(v));
    }
    assert(cands.to_set().subset_of(existing.to_set()));
    vstd::set_lib::lemma_len_subset(cands.to_set(), existing.to_set());
}

/// Whether every candidate name below `k` is taken by an existing name.
pub open spec fn spec_candidates_taken(existing: Seq<String>, base: Seq<char>, k: int) -> bool {
    forall|j: int|
        0 <= j < k ==> exists|e: int|
            0 <= e < existing.len() && existing[e]@ == #[trigger] spec_candidate(base, j)
}

/// Whether some existing name equals the candidate.
fn existing_contains(existing: &Vec<String>, candidate: &str) -> (r: bool)
    ensures
        r == exists|e: int| 0 <= e < existing@.len() && existing@[e]@ == candidate@,
{
    let mut k: usize = 0;
    while k < existing.len()
        invariant
            k <= existing@.len(),
            forall|j: int| 0 <= j < k ==> existing@[j]@ != candidate@,
        decreases existing@.len() - k,
    {
        if str_eq(existing[k].as_str(), candidate) {
            return true;
        }
        k += 1;
    }
    false
}

/// Picks the first candidate folder name, over the sanitised project
/// name, that is not among the existing names: the sanitised name
/// itself, else the first numbered variant that is free.
pub fn generate_unique_project_folder(existing: &Vec<String>, project_name: &str) -> (r: String)
    ensures
        !(exists|e: int| 0 <= e < existing@.len() && existing@[e]@ == r@),
        exists|k: int|
            0 <= k && r@ == spec_candidate(spec_sanitize(project_name@), k)
                && spec_candidates_taken(existing@, spec_sanitize(project_name@), k),
{
    let sanitized = sanitize_folder_name(project_name);
    let ghost base = spec_sanitize(project_name@);
    let n = existing.len();
    if !existing_contains(existing, sanitized.as_str()) {
        proof {
            assert(sanitized@ == spec_candidate(base, 0));
            assert(spec_candidates_taken(existing@, base, 0));
        }
        return sanitized;
    }
    proof {
        assert(sanitized@ == spec_candidate(base, 0));
        let e = choose|e: int| 0 <= e < existing@.len() && existing@[e]@ == sanitized@;
        assert(n >= 1);
    }
    let mut k: usize = 1;
    loop
        invariant
            1 <= k,
            k <= n,
            n == existing@.len(),
            sanitized@ == base,
            base == spec_sanitize(project_name@),
            spec_candidates_taken(existing@, base, k as int),
        decreases n - k,
    {
        let mut candidate = sanitized.clone();
        candidate.append("-");
        let num = u64_to_string(k as u64);
        candidate.append(num.as_str());
        proof {
            assert(candidate@ == spec_candidate(base, k as int));
        }
        if !existing_contains(existing, candidate.as_str()) {
            proof {
                assert(candidate@ == spec_candidate(base, k as int));
                assert(spec_candidates_taken(existing@, base, k as int));
            }
            return candidate;
        }
        proof {
            assert(spec_candidates_taken(existing@, base, k as int + 1));
            let ghost views = existing@.map_values(|s: String| s@);
            assert forall|j: int|
                0 <= j < k + 1 implies exists|e: int|
                0 <= e < views.len() && views[e] == #[trigger] spec_candidate(base, j) by {
                let e = choose|e: int|
                    0 <= e < existing@.len() && existing@[e]@ == spec_candidate(base, j);
                assert(views[e] == existing@[e]@);
            }
            lemma_candidate_pigeonhole(views, base, k as int + 1);
        }
        k += 1;
    }
}

} // verus!
