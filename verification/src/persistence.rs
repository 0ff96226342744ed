//! Compute half of the persistence gateway: the recognized env-file name
//! set, path and file-name handling, and the default configuration built
//! for a project that has no saved one. Reading and writing files, and the
//! JSON form of these records, stay with the hosting application.

use vstd::prelude::*;
use vstd::string::{StrSliceExecFns, StringExecFns};

verus! {

/// One environment file: a recognized name, its full path, its text.
#[derive(Debug)]
pub struct EnvFile {
    pub name: String,
    pub path: String,
    pub content: String,
}

/// One saved configuration preset: a title and its variable assignments.
#[derive(Debug)]
pub struct EnvConfig {
    pub title: String,
    pub variables: Vec<(String, String)>,
}

/// A project's saved configuration.
#[derive(Debug)]
pub struct ProjectConfig {
    pub name: String,
    pub path: String,
    pub env_files: Vec<EnvFile>,
    pub preset_configs: Vec<EnvConfig>,
}

/// The fixed set of file names recognized as environment files, in the
/// order they are probed.
pub fn env_file_patterns() -> (r: Vec<String>)
    ensures
        r@.len() == 5,
        r@[0]@ == ".env"@,
        r@[1]@ == ".env.local"@,
        r@[2]@ == ".env.development"@,
        r@[3]@ == ".env.production"@,
        r@[4]@ == ".env.test"@,
{
    let mut v: Vec<String> = Vec::new();
    v.push(String::from_str(".env"));
    v.push(String::from_str(".env.local"));
    v.push(String::from_str(".env.development"));
    v.push(String::from_str(".env.production"));
    v.push(String::from_str(".env.test"));
    v
}

/// `dir`, a slash, `name`.
pub fn join_path(dir: &str, name: &str) -> (r: String)
    ensures
        r@ == dir@ + "/"@ + name@,
{
    let mut s = String::from_str(dir);
    s.append("/");
    s.append(name);
    s
}

/// The name of the configuration file kept in a project root.
pub open spec fn config_file_name() -> Seq<char> {
    ".hold-config.json"@
}

/// Full path of a project's configuration file.
pub fn config_file_path(project_path: &str) -> (r: String)
    ensures
        r@ == project_path@ + "/"@ + config_file_name(),
{
    join_path(project_path, ".hold-config.json")
}

/// A path separator: slash or backslash.
pub open spec fn is_sep(c: char) -> bool {
    c == '/' || c == '\\'
}

/// Index of the last path separator of `s`, or `-1` if there is none.
pub open spec fn last_sep(s: Seq<char>) -> int
    decreases s.len(),
{
    if s.len() == 0 {
        -1
    } else if is_sep(s[s.len() - 1]) {
        s.len() - 1
    } else {
        last_sep(s.drop_last())
    }
}

/// What follows the last path separator.
pub open spec fn file_name_spec(s: Seq<char>) -> Seq<char> {
    s.subrange(last_sep(s) + 1, s.len() as int)
}

/// `last_sep` returns the position of a separator that nothing follows.
proof fn lemma_last_sep_at(s: Seq<char>, m: int)
    requires
        0 <= m < s.len(),
        is_sep(s[m]),
        forall|k: int| m < k < s.len() ==> !is_sep(#[trigger] s[k]),
    ensures
        last_sep(s) == m,
    decreases s.len(),
{
    if m < s.len() - 1 {
        assert(!is_sep(s[s.len() - 1]));
        let r = s.drop_last();
        assert(forall|k: int| m < k < r.len() ==> !is_sep(#[trigger] r[k]));
        lemma_last_sep_at(r, m);
    }
}

/// On a separator-free sequence, `last_sep` returns `-1`.
proof fn lemma_last_sep_none(s: Seq<char>)
    requires
        forall|k: int| 0 <= k < s.len() ==> !is_sep(#[trigger] s[k]),
    ensures
        last_sep(s) == -1,
    decreases s.len(),
{
    if s.len() > 0 {
        let r = s.drop_last();
        assert(forall|k: int| 0 <= k < r.len() ==> !is_sep(#[trigger] r[k]));
        lemma_last_sep_none(r);
    }
}

/// The text after the last slash or backslash of `path`: the file name a
/// project takes its default display name from.
pub fn file_name_of(path: &str) -> (r: String)
    ensures
        r@ == file_name_spec(path@),
{
    let n: usize = path.unicode_len();
    let mut cut: usize = 0;
    let mut i: usize = 0;
    while i < n
        invariant
            i <= n,
            n == path@.len(),
            cut <= i,
            cut == 0 || (is_sep(path@[cut - 1]) && cut >= 1),
            forall|k: int| cut <= k < i ==> !is_sep(#[trigger] path@[k]),
        decreases n - i,
    {
        let c: char = path.get_char(i);
        if c == '/' || c == '\\' {
            cut = i + 1;
        }
        i = i + 1;
    }
    proof {
        if cut == 0 {
            lemma_last_sep_none(path@);
        } else {
            lemma_last_sep_at(path@, cut - 1);
        }
    }
    let tail = path.substring_char(cut, n);
    String::from_str(tail)
}

/// The env files whose content could be read, in probe order; a file that
/// does not exist (no content) is silently skipped.
pub open spec fn collected(entries: Seq<(String, String, Option<String>)>) -> Seq<EnvFile>
    decreases entries.len(),
{
    if entries.len() == 0 {
        Seq::empty()
    } else {
        let rest = collected(entries.drop_last());
        let t = entries.last();
        match t.2 {
            Some(c) => rest.push(EnvFile { name: t.0, path: t.1, content: c }),
            None => rest,
        }
    }
}

/// Builds the env-file list from probe results: one `(name, path, content)`
/// entry per recognized pattern, content present only where the file could
/// be read. Keeps exactly the readable ones, in input order.
pub fn collect_env_files(entries: &Vec<(String, String, Option<String>)>) -> (r: Vec<EnvFile>)
    ensures
        r@ == collected(entries@),
{
    let n: usize = entries.len();
    let mut out: Vec<EnvFile> = Vec::new();
    let mut i: usize = 0;
    while i < n
        invariant
            i <= n,
            n == entries@.len(),
            out@ == collected(entries@.take(i as int)),
        decreases n - i,
    {
        let e = &entries[i];
        match &e.2 {
            Some(c) => {
                out.push(EnvFile { name: e.0.clone(), path: e.1.clone(), content: c.clone() });
            },
            None => {},
        }
        proof {
            let ii = i as int;
            assert(entries@.take(ii + 1).drop_last() =~= entries@.take(ii));
            assert(entries@.take(ii + 1).last() == entries@[ii]);
            assert(out@ =~= collected(entries@.take(ii + 1)));
        }
        i = i + 1;
    }
    proof {
        assert(entries@.take(n as int) =~= entries@);
    }
    out
}

/// The configuration made for a project that has none saved: named after
/// the last path component, carrying the scanned env files and two empty
/// presets.
pub fn default_project_config(project_path: String, env_files: Vec<EnvFile>) -> (r: ProjectConfig)
    ensures
        r.name@ == file_name_spec(project_path@),
        r.path == project_path,
        r.env_files == env_files,
        r.preset_configs@.len() == 2,
        r.preset_configs@[0].title@ == "开发环境"@,
        r.preset_configs@[0].variables@ == Seq::<(String, String)>::empty(),
        r.preset_configs@[1].title@ == "生产环境"@,
        r.preset_configs@[1].variables@ == Seq::<(String, String)>::empty(),
{
    let name = file_name_of(project_path.as_str());
    let mut presets: Vec<EnvConfig> = Vec::new();
    presets.push(EnvConfig { title: String::from_str("开发环境"), variables: Vec::new() });
    presets.push(EnvConfig { title: String::from_str("生产环境"), variables: Vec::new() });
    ProjectConfig { name, path: project_path, env_files, preset_configs: presets }
}

} // verus!
