//! Project directory layout, interpreter location and file intake rules.
//!
//! All paths are plain strings joined with a single separator; the
//! application probes the filesystem and reports what it found, and the
//! decisions — which candidate to take, what an imported file may be called,
//! which files are accepted — are made here.

use vstd::prelude::*;
use vstd::string::*;
use crate::clock::{parts_in_range, DateTimeParts};
use crate::plans::seq_views;
use crate::strings::{
    dec_chars, join_path, lemma_pad2_len, lemma_pad4_len, pad2_chars, pad4_chars, push_dec_u32,
    push_pad2, push_pad4, str_eq,
};

verus! {

/// One file reported to the caller.
pub struct FileInfo {
    /// The file's name.
    pub name: String,
    /// Its full path.
    pub path: String,
    /// Its size in bytes.
    pub size_bytes: u64,
}

/// One project reported to the caller.
pub struct ProjectInfo {
    /// The project's identifier.
    pub id: String,
    /// Its display name.
    pub name: String,
    /// Its directory path.
    pub path: String,
    /// Its lifecycle status.
    pub status: String,
    /// The model attached to it, if any.
    pub model_path: Option<String>,
    /// When it was created.
    pub created_at: String,
    /// When it was last updated.
    pub updated_at: String,
}

impl ProjectInfo {
    /// The record of a project created now: status `created`, no model,
    /// both timestamps the creation time.
    pub fn fresh(id: String, name: String, path: String, now: String) -> (r: ProjectInfo)
        ensures
            r.id == id,
            r.name == name,
            r.path == path,
            r.status@ == "created"@,
            r.model_path is None,
            r.created_at == now,
            r.updated_at == now,
    {
        let created_at = now.clone();
        ProjectInfo {
            id,
            name,
            path,
            status: String::from_str("created"),
            model_path: None,
            created_at,
            updated_at: now,
        }
    }
}

/// Relies on `uuid::Uuid::new_v4` for a fresh random identifier and on its
/// `Display` rendering, the hyphenated form, which is always 36 characters.
/// The value is random, so nothing else is promised.
#[verifier::external_body]
pub fn fresh_project_id() -> (r: String)
    ensures
        r@.len() == 36,
{
    uuid::Uuid::new_v4().to_string()
}

/// The display form of a calendar reading: date, a space, then the time.
pub open spec fn datetime_display_chars(p: DateTimeParts) -> Seq<char>
    recommends
        p.year >= 0,
{
    pad4_chars(p.year as nat) + seq!['-'] + pad2_chars(p.month as nat) + seq!['-'] + pad2_chars(
        p.day as nat,
    ) + seq![' '] + pad2_chars(p.hour as nat) + seq![':'] + pad2_chars(p.minute as nat)
        + seq![':'] + pad2_chars(p.second as nat)
}

/// Renders a calendar reading for display.
pub fn format_datetime_display(p: &DateTimeParts) -> (r: String)
    requires
        p.year >= 0,
    ensures
        r@ == datetime_display_chars(*p),
        p.year <= 9999 && parts_in_range(*p) ==> r@.len() == 19,
{
    let mut out = String::new();
    proof {
        reveal_strlit("-");
        reveal_strlit(" ");
        reveal_strlit(":");
        assert("-"@ =~= seq!['-']);
        assert(" "@ =~= seq![' ']);
        assert(":"@ =~= seq![':']);
    }
    push_pad4(&mut out, p.year as u32);
    out.append("-");
    push_pad2(&mut out, p.month);
    out.append("-");
    push_pad2(&mut out, p.day);
    out.append(" ");
    push_pad2(&mut out, p.hour);
    out.append(":");
    push_pad2(&mut out, p.minute);
    out.append(":");
    push_pad2(&mut out, p.second);
    assert(out@ =~= datetime_display_chars(*p));
    proof {
        if p.year <= 9999 && parts_in_range(*p) {
            lemma_pad4_len(p.year as nat);
            lemma_pad2_len(p.month as nat);
            lemma_pad2_len(p.day as nat);
            lemma_pad2_len(p.hour as nat);
            lemma_pad2_len(p.minute as nat);
            lemma_pad2_len(p.second as nat);
        }
    }
    out
}

/// The base directory all projects live under.
pub open spec fn base_dir_chars(home: Option<String>) -> Seq<char> {
    (match home {
        Some(h) => h@,
        None => "."@,
    }) + seq!['/'] + "Courtyard"@
}

/// Manager of the application's project directories.
pub struct ProjectDirManager {
    /// The base directory all projects live under.
    pub base_dir: String,
}

impl ProjectDirManager {
    /// A manager rooted under the given home directory, or the current
    /// directory when none is known.
    pub fn new(home: Option<String>) -> (r: Self)
        ensures
            r.base_dir@ == base_dir_chars(home),
    {
        let mut base = match home {
            Some(h) => h,
            None => String::from_str("."),
        };
        proof {
            reveal_strlit("/");
            assert("/"@ =~= seq!['/']);
        }
        base.append("/");
        base.append("Courtyard");
        ProjectDirManager { base_dir: base }
    }

    /// The directory of one project.
    pub fn project_path(&self, project_id: &str) -> (r: String)
        ensures
            r@ == self.base_dir@ + seq!['/'] + "projects"@ + seq!['/'] + project_id@,
    {
        let projects = join_path(self.base_dir.as_str(), "projects");
        let r = join_path(projects.as_str(), project_id);
        proof {
            reveal_strlit("projects");
        }
        r
    }
}

/// The interpreter location inside a base directory.
pub open spec fn python_path_chars(base: Seq<char>) -> Seq<char> {
    base + "/python/.venv/bin/python"@
}

/// The located worker interpreter, with whether it is actually present.
pub struct PythonExecutor {
    /// Path of the interpreter binary.
    pub python_path: String,
    /// The base directory the environment lives under.
    pub base_dir: String,
    /// Whether the interpreter binary exists on disk.
    pub python_present: bool,
}

impl PythonExecutor {
    /// Locates the interpreter under the given home directory, or the
    /// current directory when none is known; the caller reports whether the
    /// binary it names is present.
    pub fn locate(home: Option<String>, python_present: bool) -> (r: Self)
        ensures
            r.base_dir@ == base_dir_chars(home),
            r.python_path@ == python_path_chars(base_dir_chars(home)),
            r.python_present == python_present,
    {
        let base = match home {
            Some(h) => h,
            None => String::from_str("."),
        };
        proof {
            reveal_strlit("/");
            assert("/"@ =~= seq!['/']);
        }
        let mut base_dir = base;
        base_dir.append("/");
        base_dir.append("Courtyard");
        let mut python_path = base_dir.clone();
        python_path.append("/python/.venv/bin/python");
        PythonExecutor { python_path, base_dir, python_present }
    }

    /// The interpreter binary's path.
    pub fn python_bin(&self) -> (r: &String)
        ensures
            r == self.python_path,
    {
        &self.python_path
    }

    /// The virtual environment's directory.
    pub fn venv_dir(&self) -> (r: String)
        ensures
            r@ == self.base_dir@ + "/python/.venv"@,
    {
        let mut out = self.base_dir.clone();
        out.append("/python/.venv");
        out
    }

    /// Whether the environment is ready to run workers.
    pub fn is_ready(&self) -> (r: bool)
        ensures
            r == self.python_present,
    {
        self.python_present
    }
}

/// The numeric value of a character with ASCII capitals folded to their
/// lowercase counterparts.
pub open spec fn lower_u(c: char) -> int {
    if 65 <= c as int <= 90 {
        c as int + 32
    } else {
        c as int
    }
}

/// Whether two character sequences are equal up to ASCII case.
pub open spec fn matches_ci(a: Seq<char>, b: Seq<char>) -> bool {
    a.len() == b.len() && forall|i: int| 0 <= i < a.len() ==> lower_u(a[i]) == lower_u(b[i])
}

/// Where the extension begins, scanning backward from position `i`: the
/// position of the last dot of the file name, unless that dot starts the
/// name (a hidden file has no extension) or no dot stands after the last
/// separator.
pub open spec fn ext_at(s: Seq<char>, i: int) -> Option<int>
    decreases i,
{
    if i <= 0 {
        None
    } else if s[i - 1] == '/' {
        None
    } else if s[i - 1] == '.' {
        if i - 1 > 0 && s[i - 2] != '/' {
            Some(i - 1)
        } else {
            None
        }
    } else {
        ext_at(s, i - 1)
    }
}

/// The extension of the path's file name, when it has one.
pub open spec fn file_ext(s: Seq<char>) -> Option<Seq<char>> {
    match ext_at(s, s.len() as int) {
        Some(p) => Some(s.skip(p + 1)),
        None => None,
    }
}

/// Whether an extension is one the importer accepts.
pub open spec fn supported_ext(e: Seq<char>) -> bool {
    ||| matches_ci(e, "txt"@)
    ||| matches_ci(e, "json"@)
    ||| matches_ci(e, "jsonl"@)
    ||| matches_ci(e, "md"@)
    ||| matches_ci(e, "docx"@)
    ||| matches_ci(e, "pdf"@)
}

fn fold_lower(c: char) -> (r: u32)
    ensures
        r == lower_u(c),
{
    let v = c as u32;
    if 65 <= v && v <= 90 {
        v + 32
    } else {
        v
    }
}

fn tail_matches_ci(s: &str, from: usize, target: &str) -> (r: bool)
    requires
        from <= s@.len(),
    ensures
        r == matches_ci(s@.skip(from as int), target@),
{
    let n = s.unicode_len();
    let m = target.unicode_len();
    if n - from != m {
        return false;
    }
    let mut i: usize = 0;
    while i < m
        invariant
            i <= m,
            from + m == n,
            n == s@.len(),
            m == target@.len(),
            forall|j: int| 0 <= j < i ==> lower_u(s@.skip(from as int)[j]) == lower_u(target@[j]),
        decreases m - i,
    {
        let a = fold_lower(s.get_char(from + i));
        let b = fold_lower(target.get_char(i));
        assert(s@.skip(from as int)[i as int] == s@[from + i]);
        if a != b {
            return false;
        }
        i += 1;
    }
    true
}

fn find_ext_start(path: &str) -> (r: Option<usize>)
    ensures
        (match r {
            Some(p) => ext_at(path@, path@.len() as int) == Some(p as int) && p < path@.len()
                && path@.len() <= usize::MAX,
            None => ext_at(path@, path@.len() as int) is None,
        }),
{
    let n = path.unicode_len();
    let mut i: usize = n;
    while i > 0
        invariant
            i <= n,
            n == path@.len(),
            ext_at(path@, n as int) == ext_at(path@, i as int),
        decreases i,
    {
        let c = path.get_char(i - 1);
        if c == '/' {
            return None;
        }
        if c == '.' {
            if i - 1 > 0 {
                if path.get_char(i - 2) != '/' {
                    return Some(i - 1);
                }
            }
            return None;
        }
        i -= 1;
    }
    None
}

/// Whether the importer accepts this file, by its extension: plain text,
/// JSON, JSON lines, Markdown, Word or PDF, in any letter case.
pub fn is_supported_file(path: &str) -> (r: bool)
    ensures
        r == (match file_ext(path@) {
            Some(e) => supported_ext(e),
            None => false,
        }),
{
    match find_ext_start(path) {
        None => false,
        Some(p) => {
            proof {
                reveal_strlit("txt");
                reveal_strlit("json");
                reveal_strlit("jsonl");
                reveal_strlit("md");
                reveal_strlit("docx");
                reveal_strlit("pdf");
            }
            let from = p + 1;
            if tail_matches_ci(path, from, "txt") {
                true
            } else if tail_matches_ci(path, from, "json") {
                true
            } else if tail_matches_ci(path, from, "jsonl") {
                true
            } else if tail_matches_ci(path, from, "md") {
                true
            } else if tail_matches_ci(path, from, "docx") {
                true
            } else {
                tail_matches_ci(path, from, "pdf")
            }
        },
    }
}

/// Whether some listed name has these characters.
pub open spec fn name_taken(xs: Seq<String>, name: Seq<char>) -> bool {
    exists|i: int| 0 <= i < xs.len() && xs[i]@ == name
}

fn is_taken(existing: &Vec<String>, name: &str) -> (r: bool)
    ensures
        r == name_taken(existing@, name@),
{
    let mut i: usize = 0;
    while i < existing.len()
        invariant
            i <= existing@.len(),
            forall|j: int| 0 <= j < i ==> existing@[j]@ != name@,
        decreases existing@.len() - i,
    {
        if str_eq(existing[i].as_str(), name) {
            return true;
        }
        i += 1;
    }
    false
}

/// The renamed form an imported file falls back to when its name is taken:
/// the stem, an underscore and a counter, the extension following when
/// there is one.
pub open spec fn renamed_chars(stem: Seq<char>, ext: Seq<char>, k: nat) -> Seq<char> {
    stem + seq!['_'] + dec_chars(k) + (if ext.len() == 0 {
        Seq::<char>::empty()
    } else {
        seq!['.'] + ext
    })
}

fn renamed(stem: &str, ext: &str, k: u32) -> (r: String)
    ensures
        r@ == renamed_chars(stem@, ext@, k as nat),
{
    let mut out = String::from_str(stem);
    proof {
        reveal_strlit("_");
        reveal_strlit(".");
        assert("_"@ =~= seq!['_']);
        assert("."@ =~= seq!['.']);
    }
    out.append("_");
    push_dec_u32(&mut out, k);
    if ext.unicode_len() > 0 {
        out.append(".");
        out.append(ext);
    }
    assert(out@ =~= renamed_chars(stem@, ext@, k as nat));
    out
}

/// Picks the name an imported file is stored under, avoiding the names
/// already present: the file's own name when free, otherwise the first
/// renamed form whose counter is not taken. Exhausting one more counter
/// than there are existing names without finding a free one — impossible
/// when the existing names are distinct — yields nothing.
pub fn pick_import_name(name: &str, stem: &str, ext: &str, existing: &Vec<String>) -> (r: Option<
    String,
>)
    requires
        existing@.len() < 0xffff_fffe,
    ensures
        (match r {
            Some(n) => {
                &&& !name_taken(existing@, n@)
                &&& (n@ == name@ || name_taken(existing@, name@))
                &&& (n@ == name@ || exists|k: nat|
                    1 <= k && n@ == renamed_chars(stem@, ext@, k) && (forall|j: nat|
                        1 <= j < k ==> name_taken(
                            existing@,
                            #[trigger] renamed_chars(stem@, ext@, j),
                        )))
            },
            None => name_taken(existing@, name@) && (forall|j: nat|
                1 <= j <= existing@.len() + 1 ==> name_taken(
                    existing@,
                    #[trigger] renamed_chars(stem@, ext@, j),
                )),
        }),
{
    if !is_taken(existing, name) {
        return Some(String::from_str(name));
    }
    let mut k: u32 = 1;
    let bound: u32 = (existing.len() + 1) as u32;
    while k <= bound
        invariant
            1 <= k <= bound + 1,
            bound == existing@.len() + 1,
            existing@.len() < 0xffff_fffe,
            name_taken(existing@, name@),
            forall|j: nat|
                1 <= j < k ==> name_taken(existing@, #[trigger] renamed_chars(stem@, ext@, j)),
        decreases bound + 1 - k,
    {
        let candidate = renamed(stem, ext, k);
        if !is_taken(existing, candidate.as_str()) {
            return Some(candidate);
        }
        k += 1;
    }
    None
}

/// The well-known places the dependency manager binary may stand, in the
/// order they are probed.
pub fn uv_candidate_paths(home: &str) -> (r: Vec<String>)
    ensures
        seq_views(r@) == seq![
            "/usr/local/bin/uv"@,
            "/opt/homebrew/bin/uv"@,
            home@ + "/.cargo/bin/uv"@,
            home@ + "/.local/bin/uv"@,
        ],
{
    let mut out: Vec<String> = Vec::new();
    out.push(String::from_str("/usr/local/bin/uv"));
    out.push(String::from_str("/opt/homebrew/bin/uv"));
    let mut cargo = String::from_str(home);
    cargo.append("/.cargo/bin/uv");
    out.push(cargo);
    let mut local = String::from_str(home);
    local.append("/.local/bin/uv");
    out.push(local);
    assert(seq_views(out@) =~= seq![
        "/usr/local/bin/uv"@,
        "/opt/homebrew/bin/uv"@,
        home@ + "/.cargo/bin/uv"@,
        home@ + "/.local/bin/uv"@,
    ]);
    out
}

/// The well-known places the model runtime binary may stand, in the order
/// they are probed.
pub fn ollama_candidate_paths() -> (r: Vec<String>)
    ensures
        seq_views(r@) == seq!["/usr/local/bin/ollama"@, "/opt/homebrew/bin/ollama"@],
{
    let mut out: Vec<String> = Vec::new();
    out.push(String::from_str("/usr/local/bin/ollama"));
    out.push(String::from_str("/opt/homebrew/bin/ollama"));
    assert(seq_views(out@) =~= seq!["/usr/local/bin/ollama"@, "/opt/homebrew/bin/ollama"@]);
    out
}

/// The places the bundled worker scripts may stand relative to the running
/// binary's directory, in the order they are probed.
pub fn script_dir_candidates(exe_dir: &str) -> (r: Vec<String>)
    ensures
        seq_views(r@) == seq![
            exe_dir@ + "/../Resources/scripts"@,
            exe_dir@ + "/scripts"@,
            exe_dir@ + "/../scripts"@,
            exe_dir@ + "/../../scripts"@,
        ],
{
    let mut out: Vec<String> = Vec::new();
    let mut a = String::from_str(exe_dir);
    a.append("/../Resources/scripts");
    out.push(a);
    let mut b = String::from_str(exe_dir);
    b.append("/scripts");
    out.push(b);
    let mut c = String::from_str(exe_dir);
    c.append("/../scripts");
    out.push(c);
    let mut d = String::from_str(exe_dir);
    d.append("/../../scripts");
    out.push(d);
    assert(seq_views(out@) =~= seq![
        exe_dir@ + "/../Resources/scripts"@,
        exe_dir@ + "/scripts"@,
        exe_dir@ + "/../scripts"@,
        exe_dir@ + "/../../scripts"@,
    ]);
    out
}

/// The fixed subdirectories every project directory is bootstrapped with.
pub fn project_subdir_names() -> (r: Vec<String>)
    ensures
        seq_views(r@) == seq!["raw"@, "cleaned"@, "dataset"@, "adapters"@, "logs"@],
{
    let mut out: Vec<String> = Vec::new();
    out.push(String::from_str("raw"));
    out.push(String::from_str("cleaned"));
    out.push(String::from_str("dataset"));
    out.push(String::from_str("adapters"));
    out.push(String::from_str("logs"));
    assert(seq_views(out@) =~= seq!["raw"@, "cleaned"@, "dataset"@, "adapters"@, "logs"@]);
    out
}

/// The index of the first candidate marked present, probing in order.
pub fn first_marked(flags: &Vec<bool>) -> (r: Option<usize>)
    ensures
        (match r {
            Some(i) => i < flags@.len() && flags@[i as int] && (forall|j: int|
                0 <= j < i ==> !flags@[j]),
            None => forall|j: int| 0 <= j < flags@.len() ==> !flags@[j],
        }),
{
    let mut i: usize = 0;
    while i < flags.len()
        invariant
            i <= flags@.len(),
            forall|j: int| 0 <= j < i ==> !flags@[j],
        decreases flags@.len() - i,
    {
        if flags[i] {
            return Some(i);
        }
        i += 1;
    }
    None
}

} // verus!
