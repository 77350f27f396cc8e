//! Finding a training repository on disk, its `ati_plug` script entry point in
//! `pyproject.toml`, and the shell command that runs it (inside the
//! repository's virtual environment when there is one).
use vstd::prelude::*;
use crate::proto::{path_join, push_component};
use crate::text::{chars_of, string_of, split_char, split_bounds, pieces_of, bounds_within};
use crate::platform::path_exists;

verus! {

/// `s` with every trailing `.git` removed (`trim_end_matches(".git")`).
pub open spec fn strip_git(s: Seq<char>) -> Seq<char>
    decreases s.len(),
{
    if s.len() >= 4 && s.subrange(s.len() - 4, s.len() as int) == ".git"@ {
        strip_git(s.subrange(0, s.len() - 4))
    } else {
        s
    }
}

/// The position of the last `c` in `s`, or -1 when there is none.
pub open spec fn last_index_of(s: Seq<char>, c: char) -> int
    decreases s.len(),
{
    if s.len() == 0 {
        -1
    } else if s.last() == c {
        s.len() - 1
    } else {
        last_index_of(s.drop_last(), c)
    }
}

/// The last index is -1 or a position of `c`, with no `c` after it.
proof fn lemma_last_index_of(s: Seq<char>, c: char)
    ensures
        -1 <= last_index_of(s, c) < s.len(),
        last_index_of(s, c) >= 0 ==> s[last_index_of(s, c)] == c,
    decreases s.len(),
{
    if s.len() > 0 && s.last() != c {
        lemma_last_index_of(s.drop_last(), c);
    }
}

/// The directory name a repository URL clones into: the text after the last
/// `/`, without trailing `.git`.
pub open spec fn repo_suffix(url: Seq<char>) -> Seq<char> {
    let t = strip_git(url);
    t.subrange(last_index_of(t, '/') + 1, t.len() as int)
}

/// The directory name that the repository at `url` clones into.
pub fn repo_suffix_from_url(url: &str) -> (r: String)
    ensures
        r@ == repo_suffix(url@),
{
    let cs = chars_of(url);
    let mut e: usize = cs.len();
    proof {
        reveal_strlit(".git");
        assert(cs@.take(e as int) =~= cs@);
    }
    while e >= 4 && cs[e - 4] == '.' && cs[e - 3] == 'g' && cs[e - 2] == 'i' && cs[e - 1] == 't'
        invariant
            e <= cs@.len(),
            strip_git(cs@) == strip_git(cs@.take(e as int)),
        decreases e,
    {
        proof {
            reveal_strlit(".git");
            let t = cs@.take(e as int);
            assert(t.subrange(t.len() - 4, t.len() as int) =~= ".git"@);
            assert(t.subrange(0, t.len() - 4) =~= cs@.take(e - 4));
        }
        e = e - 4;
    }
    proof {
        reveal_strlit(".git");
        let t = cs@.take(e as int);
        if t.len() >= 4 {
            if t.subrange(t.len() - 4, t.len() as int) == ".git"@ {
                assert(t.subrange(t.len() - 4, t.len() as int)[0] == cs@[e - 4]);
                assert(t.subrange(t.len() - 4, t.len() as int)[1] == cs@[e - 3]);
                assert(t.subrange(t.len() - 4, t.len() as int)[2] == cs@[e - 2]);
                assert(t.subrange(t.len() - 4, t.len() as int)[3] == cs@[e - 1]);
            }
        }
    }
    let mut k: usize = e;
    while k > 0 && cs[k - 1] != '/'
        invariant
            k <= e <= cs@.len(),
            last_index_of(cs@.take(e as int), '/') == last_index_of(cs@.take(k as int), '/'),
        decreases k,
    {
        proof {
            assert(cs@.take(k as int).drop_last() =~= cs@.take(k - 1));
        }
        k = k - 1;
    }
    proof {
        if k > 0 {
            assert(cs@.take(k as int).last() == '/');
        }
        assert(cs@.take(e as int).subrange(k as int, e as int) =~= cs@.subrange(k as int, e as int));
    }
    string_of(&cs, k, e)
}

/// The last component of a path that is a name, as `Path::file_name` finds
/// it among the pieces between `/`: empty pieces and `.` are skipped, and a
/// final `..` has no name.
pub open spec fn last_component(pieces: Seq<Seq<char>>) -> Option<Seq<char>>
    decreases pieces.len(),
{
    if pieces.len() == 0 {
        None
    } else if pieces.last().len() == 0 || pieces.last() == seq!['.'] {
        last_component(pieces.drop_last())
    } else if pieces.last() == seq!['.', '.'] {
        None
    } else {
        Some(pieces.last())
    }
}

/// The final name in a path (`Path::file_name`).
pub open spec fn file_name(p: Seq<char>) -> Option<Seq<char>> {
    last_component(split_char(p, '/'))
}

/// Whether `cs[a..b]` is `.`.
fn is_dot(cs: &Vec<char>, a: usize, b: usize) -> (r: bool)
    requires
        a <= b <= cs@.len(),
    ensures
        r == (cs@.subrange(a as int, b as int) =~= seq!['.']),
{
    if b - a == 1 && cs[a] == '.' {
        proof {
            assert(cs@.subrange(a as int, b as int) =~= seq!['.']);
        }
        true
    } else {
        proof {
            if cs@.subrange(a as int, b as int) =~= seq!['.'] {
                assert(cs@.subrange(a as int, b as int)[0] == cs@[a as int]);
            }
        }
        false
    }
}

/// Whether `cs[a..b]` is `..`.
fn is_dot_dot(cs: &Vec<char>, a: usize, b: usize) -> (r: bool)
    requires
        a <= b <= cs@.len(),
    ensures
        r == (cs@.subrange(a as int, b as int) =~= seq!['.', '.']),
{
    if b - a == 2 && cs[a] == '.' && cs[a + 1] == '.' {
        proof {
            assert(cs@.subrange(a as int, b as int) =~= seq!['.', '.']);
        }
        true
    } else {
        proof {
            if cs@.subrange(a as int, b as int) =~= seq!['.', '.'] {
                assert(cs@.subrange(a as int, b as int)[0] == cs@[a as int]);
                assert(cs@.subrange(a as int, b as int)[1] == cs@[a + 1]);
            }
        }
        false
    }
}

/// The final name in the path `p`, if it has one.
pub fn file_name_of(p: &str) -> (r: Option<String>)
    ensures
        match file_name(p@) {
            Some(n) => r matches Some(s) && s@ == n,
            None => r is None,
        },
{
    let cs = chars_of(p);
    let b = split_bounds(&cs, '/');
    let ghost pieces = pieces_of(cs@, b@);
    let mut k: usize = b.len();
    proof {
        assert(pieces.take(k as int) =~= pieces);
        assert(pieces == split_char(p@, '/'));
    }
    while k > 0
        invariant
            k <= b@.len(),
            bounds_within(b@, cs@.len()),
            pieces == pieces_of(cs@, b@),
            pieces == split_char(p@, '/'),
            last_component(pieces) == last_component(pieces.take(k as int)),
        decreases k,
    {
        let (s, e) = b[k - 1];
        proof {
            assert(pieces.take(k as int).last() == cs@.subrange(s as int, e as int));
            assert(pieces.take(k as int).drop_last() =~= pieces.take(k - 1));
        }
        let ghost last = cs@.subrange(s as int, e as int);
        if s == e || is_dot(&cs, s, e) {
            proof {
                if s == e {
                    assert(last.len() == 0);
                } else {
                    assert(last == seq!['.']);
                }
                assert(last_component(pieces.take(k as int)) == last_component(pieces.take(k - 1)));
            }
            k = k - 1;
        } else if is_dot_dot(&cs, s, e) {
            proof {
                assert(last.len() != 0);
                assert(last != seq!['.']) by {
                    if last == seq!['.'] {
                        assert(last =~= seq!['.']);
                    }
                }
                assert(last == seq!['.', '.']);
                assert(last_component(pieces.take(k as int)) == None::<Seq<char>>);
            }
            return None;
        } else {
            proof {
                assert(last.len() != 0);
                assert(last != seq!['.']) by {
                    if last == seq!['.'] {
                        assert(last =~= seq!['.']);
                    }
                }
                assert(last != seq!['.', '.']) by {
                    if last == seq!['.', '.'] {
                        assert(last =~= seq!['.', '.']);
                    }
                }
                assert(last_component(pieces.take(k as int)) == Some(last));
            }
            return Some(string_of(&cs, s, e));
        }
    }
    None
}

/// Where a virtual environment's activation script lies inside `dir`.
pub open spec fn venv_script(dir: Seq<char>) -> Seq<char> {
    path_join(path_join(path_join(dir, ".venv"@), "bin"@), "activate"@)
}

/// The activation scripts looked for, in order: the repository's own
/// `.venv`, then the ones of the same repository under `<base>/covn` and
/// `<base>/drift`.
pub open spec fn venv_candidates(repo_path: Seq<char>, base: Seq<char>) -> Seq<Seq<char>> {
    let name = match file_name(repo_path) {
        Some(n) => n,
        None => Seq::<char>::empty(),
    };
    seq![
        venv_script(repo_path),
        venv_script(path_join(path_join(base, "covn"@), name)),
        venv_script(path_join(path_join(base, "drift"@), name)),
    ]
}

/// The first of `candidates` that exists according to `exists`.
pub open spec fn first_existing(candidates: Seq<Seq<char>>, exists: Seq<bool>) -> Option<Seq<char>>
    decreases candidates.len(),
{
    if candidates.len() == 0 || exists.len() == 0 {
        None
    } else if exists[0] {
        Some(candidates[0])
    } else {
        first_existing(candidates.drop_first(), exists.drop_first())
    }
}

/// Builds the activation script path inside `dir`.
fn venv_script_in(dir: String) -> (r: String)
    ensures
        r@ == venv_script(dir@),
{
    let mut p = dir;
    push_component(&mut p, ".venv");
    push_component(&mut p, "bin");
    push_component(&mut p, "activate");
    p
}

/// Builds the activation scripts looked for, in order.
pub fn venv_candidate_paths(repo_path: &str, base: &str) -> (r: Vec<String>)
    ensures
        crate::text::string_views(r@) == venv_candidates(repo_path@, base@),
{
    let name = match file_name_of(repo_path) {
        Some(n) => n,
        None => String::new(),
    };
    let own = venv_script_in(String::from_str(repo_path));
    let mut covn = String::from_str(base);
    push_component(&mut covn, "covn");
    push_component(&mut covn, name.as_str());
    let covn = venv_script_in(covn);
    let mut drift = String::from_str(base);
    push_component(&mut drift, "drift");
    push_component(&mut drift, name.as_str());
    let drift = venv_script_in(drift);
    let mut v: Vec<String> = Vec::new();
    v.push(own);
    v.push(covn);
    v.push(drift);
    proof {
        assert(crate::text::string_views(v@) =~= venv_candidates(repo_path@, base@));
    }
    v
}

/// The first of `candidates` whose entry in `exists` is true.
pub fn pick_first_existing(candidates: &Vec<String>, exists: &Vec<bool>) -> (r: Option<String>)
    ensures
        match first_existing(crate::text::string_views(candidates@), exists@) {
            Some(p) => r matches Some(s) && s@ == p,
            None => r is None,
        },
{
    let mut i: usize = 0;
    proof {
        assert(crate::text::string_views(candidates@).skip(0) =~= crate::text::string_views(candidates@));
        assert(exists@.skip(0) =~= exists@);
    }
    while i < candidates.len() && i < exists.len()
        invariant
            i <= candidates@.len(),
            i <= exists@.len(),
            first_existing(crate::text::string_views(candidates@), exists@) == first_existing(
                crate::text::string_views(candidates@).skip(i as int),
                exists@.skip(i as int),
            ),
        decreases candidates@.len() - i,
    {
        proof {
            assert(crate::text::string_views(candidates@).skip(i as int).drop_first()
                =~= crate::text::string_views(candidates@).skip(i + 1));
            assert(exists@.skip(i as int).drop_first() =~= exists@.skip(i + 1));
        }
        if exists[i] {
            return Some(candidates[i].clone());
        }
        i = i + 1;
    }
    None
}

/// Tests which of `paths` exist, in order.
fn existing_flags(paths: &Vec<String>) -> (r: Vec<bool>)
    ensures
        r@.len() == paths@.len(),
{
    let mut flags: Vec<bool> = Vec::new();
    let mut i: usize = 0;
    while i < paths.len()
        invariant
            i <= paths@.len(),
            flags@.len() == i,
        decreases paths@.len() - i,
    {
        flags.push(path_exists(paths[i].as_str()));
        i = i + 1;
    }
    flags
}

/// The activation script of the virtual environment to run the training in:
/// the first of [`venv_candidates`] that exists on disk, if any.
pub fn detect_venv_activation(repo_path: &str, base: &str) -> (r: Option<String>)
    ensures
        exists|flags: Seq<bool>|
            flags.len() == 3 && #[trigger] first_existing(venv_candidates(repo_path@, base@), flags)
                == match r {
                Some(s) => Some(s@),
                None => None::<Seq<char>>,
            },
{
    let candidates = venv_candidate_paths(repo_path, base);
    let flags = existing_flags(&candidates);
    let r = pick_first_existing(&candidates, &flags);
    proof {
        assert(first_existing(venv_candidates(repo_path@, base@), flags@) == match r {
            Some(s) => Some(s@),
            None => None::<Seq<char>>,
        });
    }
    r
}

/// Why a repository or its entry point could not be used.
#[derive(Debug, Clone, PartialEq, Eq)]
pub enum DiscoveryError {
    RepoNotFound(String),
    EmptyScriptKey,
    ParseFailed,
    AtiPlugNotFound,
    InvalidScriptKey(String),
}

/// The text each [`DiscoveryError`] displays.
pub open spec fn discovery_error_text(e: DiscoveryError) -> Seq<char> {
    match e {
        DiscoveryError::RepoNotFound(suffix) => "repo not found in ~/.local/share/covn/ or ~/.local/share/drift/: "@
            + suffix@,
        DiscoveryError::EmptyScriptKey => "empty script key"@,
        DiscoveryError::ParseFailed => "pyproject.toml is not valid TOML"@,
        DiscoveryError::AtiPlugNotFound => "ati_plug not found in pyproject.toml"@,
        DiscoveryError::InvalidScriptKey(k) => "invalid script key: "@ + k@
            + " (expected a script name or module:function)"@,
    }
}

impl DiscoveryError {
    /// The human-readable description of the error.
    pub fn message(&self) -> (r: String)
        ensures
            r@ == discovery_error_text(*self),
    {
        let mut s = String::new();
        match self {
            DiscoveryError::RepoNotFound(suffix) => {
                s.append("repo not found in ~/.local/share/covn/ or ~/.local/share/drift/: ");
                s.append(suffix.as_str());
            },
            DiscoveryError::EmptyScriptKey => {
                s.append("empty script key");
            },
            DiscoveryError::ParseFailed => {
                s.append("pyproject.toml is not valid TOML");
            },
            DiscoveryError::AtiPlugNotFound => {
                s.append("ati_plug not found in pyproject.toml");
            },
            DiscoveryError::InvalidScriptKey(k) => {
                s.append("invalid script key: ");
                s.append(k.as_str());
                s.append(" (expected a script name or module:function)");
            },
        }
        proof {
            assert(s@ =~= discovery_error_text(*self));
        }
        s
    }
}

/// Where a provisioned copy of the repository at `url` may lie, in order:
/// `<base>/covn/<suffix>` and `<base>/drift/<suffix>`.
pub open spec fn provisioned_candidates(url: Seq<char>, base: Seq<char>) -> Seq<Seq<char>> {
    seq![
        path_join(path_join(base, "covn"@), repo_suffix(url)),
        path_join(path_join(base, "drift"@), repo_suffix(url)),
    ]
}

/// Builds the places where a provisioned copy of the repository may lie.
pub fn provisioned_candidate_paths(url: &str, base: &str) -> (r: Vec<String>)
    ensures
        crate::text::string_views(r@) == provisioned_candidates(url@, base@),
{
    let suffix = repo_suffix_from_url(url);
    let mut covn = String::from_str(base);
    push_component(&mut covn, "covn");
    push_component(&mut covn, suffix.as_str());
    let mut drift = String::from_str(base);
    push_component(&mut drift, "drift");
    push_component(&mut drift, suffix.as_str());
    let mut v: Vec<String> = Vec::new();
    v.push(covn);
    v.push(drift);
    proof {
        assert(crate::text::string_views(v@) =~= provisioned_candidates(url@, base@));
    }
    v
}

/// The provisioned copy of the repository at `url`: the first of
/// [`provisioned_candidates`] that exists on disk; when neither does, the
/// error names the directory looked for.
pub fn find_preprovisioned_repo(url: &str, base: &str) -> (r: Result<String, DiscoveryError>)
    ensures
        exists|flags: Seq<bool>|
            flags.len() == 2 && #[trigger] first_existing(provisioned_candidates(url@, base@), flags)
                == match r {
                Ok(s) => Some(s@),
                Err(_) => None::<Seq<char>>,
            },
        r matches Err(e) ==> (e matches DiscoveryError::RepoNotFound(s) && s@ == repo_suffix(url@)),
{
    let candidates = provisioned_candidate_paths(url, base);
    let flags = existing_flags(&candidates);
    let r = pick_first_existing(&candidates, &flags);
    proof {
        assert(first_existing(provisioned_candidates(url@, base@), flags@) == match r {
            Some(s) => Some(s@),
            None => None::<Seq<char>>,
        });
    }
    match r {
        Some(p) => Ok(p),
        None => Err(DiscoveryError::RepoNotFound(repo_suffix_from_url(url))),
    }
}

/// The shell command that runs script `script_key`: inside the virtual
/// environment `activation` when one is given.
pub open spec fn spawn_command(script_key: Seq<char>, activation: Option<Seq<char>>) -> Seq<char> {
    match activation {
        Some(a) => "source "@ + a + " && "@ + script_key,
        None => script_key,
    }
}

/// Builds the shell command that runs `script_key`, in `activation`'s
/// environment when given.
pub fn spawn_command_with(script_key: &str, activation: Option<&str>) -> (r: String)
    ensures
        r@ == spawn_command(
            script_key@,
            match activation {
                Some(a) => Some(a@),
                None => None,
            },
        ),
{
    match activation {
        Some(a) => {
            let mut s = String::from_str("source ");
            s.append(a);
            s.append(" && ");
            s.append(script_key);
            proof {
                assert(s@ =~= spawn_command(script_key@, Some(a@)));
            }
            s
        },
        None => String::from_str(script_key),
    }
}

/// Whether `c` may appear in a script name or a Python identifier: an ASCII
/// letter or digit, or `_`.
pub open spec fn is_name_char(c: char) -> bool {
    ('a' <= c <= 'z') || ('A' <= c <= 'Z') || ('0' <= c <= '9') || c == '_'
}

/// Whether `s` is a plain script name: one or more name characters.
pub open spec fn is_script_name(s: Seq<char>) -> bool {
    s.len() > 0 && forall|i: int| 0 <= i < s.len() ==> is_name_char(#[trigger] s[i])
}

/// Whether `s` has two dots in a row at position `i`.
pub open spec fn dot_pair(s: Seq<char>, i: int) -> bool {
    s[i] == '.' && s[i + 1] == '.'
}

/// Whether `s` is a dotted module path: name characters and dots, neither
/// first nor last a dot, and no two dots in a row.
pub open spec fn is_module_path(s: Seq<char>) -> bool {
    &&& s.len() > 0
    &&& forall|i: int| 0 <= i < s.len() ==> (is_name_char(#[trigger] s[i]) || s[i] == '.')
    &&& s[0] != '.'
    &&& s.last() != '.'
    &&& forall|i: int| 0 <= i < s.len() - 1 ==> !#[trigger] dot_pair(s, i)
}

/// The command that runs entry point `key` of the repository at `repo_path`:
/// a plain script name runs as it is; `module:function` runs the function with
/// the repository on Python's path; any other key has no command.
pub open spec fn entry_command(key: Seq<char>, repo_path: Seq<char>) -> Option<Seq<char>> {
    if is_script_name(key) {
        Some(key)
    } else {
        let i = crate::text::index_of(key, ':');
        let module = key.take(i);
        let func = key.skip(i + 1);
        if i < key.len() && is_module_path(module) && is_script_name(func) {
            Some(
                "PYTHONPATH='"@ + repo_path + "' python -c 'from "@ + module + " import "@ + func + "; "@
                    + func + "()'"@,
            )
        } else {
            None
        }
    }
}

/// Whether `c` is a name character.
fn name_char(c: char) -> (r: bool)
    ensures
        r == is_name_char(c),
{
    ('a' <= c && c <= 'z') || ('A' <= c && c <= 'Z') || ('0' <= c && c <= '9') || c == '_'
}

/// Whether `cs[a..b]` is a plain script name.
fn script_name_at(cs: &Vec<char>, a: usize, b: usize) -> (r: bool)
    requires
        a <= b <= cs@.len(),
    ensures
        r == is_script_name(cs@.subrange(a as int, b as int)),
{
    if a == b {
        return false;
    }
    let mut i: usize = a;
    while i < b
        invariant
            a <= i <= b <= cs@.len(),
            forall|j: int| a <= j < i ==> is_name_char(#[trigger] cs@[j]),
        decreases b - i,
    {
        if !name_char(cs[i]) {
            proof {
                assert(cs@.subrange(a as int, b as int)[i - a] == cs@[i as int]);
            }
            return false;
        }
        i = i + 1;
    }
    proof {
        let t = cs@.subrange(a as int, b as int);
        assert forall|j: int| 0 <= j < t.len() implies is_name_char(#[trigger] t[j]) by {
            assert(t[j] == cs@[a + j]);
        }
    }
    true
}

/// Whether `cs[a..b]` is a dotted module path.
fn module_path_at(cs: &Vec<char>, a: usize, b: usize) -> (r: bool)
    requires
        a <= b <= cs@.len(),
    ensures
        r == is_module_path(cs@.subrange(a as int, b as int)),
{
    let ghost t = cs@.subrange(a as int, b as int);
    if a == b {
        return false;
    }
    if cs[a] == '.' || cs[b - 1] == '.' {
        proof {
            assert(t[0] == cs@[a as int]);
            assert(t.last() == cs@[b - 1]);
        }
        return false;
    }
    let mut i: usize = a;
    while i < b
        invariant
            a <= i <= b <= cs@.len(),
            a < b,
            t == cs@.subrange(a as int, b as int),
            forall|j: int| a <= j < i ==> (is_name_char(#[trigger] cs@[j]) || cs@[j] == '.'),
            forall|j: int| a <= j < i && j + 1 < b ==> !(cs@[j] == '.' && #[trigger] cs@[j + 1] == '.'),
        decreases b - i,
    {
        let c = cs[i];
        if !(name_char(c) || c == '.') {
            proof {
                assert(t[i - a] == cs@[i as int]);
            }
            return false;
        }
        if i + 1 < b && c == '.' && cs[i + 1] == '.' {
            proof {
                assert(t[i - a] == cs@[i as int]);
                assert(t[i - a + 1] == cs@[i + 1]);
                assert(dot_pair(t, i - a));
            }
            return false;
        }
        i = i + 1;
    }
    proof {
        assert(t[0] == cs@[a as int]);
        assert(t.last() == cs@[b - 1]);
        assert forall|j: int| 0 <= j < t.len() implies (is_name_char(#[trigger] t[j]) || t[j] == '.') by {
            assert(t[j] == cs@[a + j]);
        }
        assert forall|j: int| 0 <= j < t.len() - 1 implies !#[trigger] dot_pair(t, j) by {
            assert(t[j] == cs@[a + j]);
            assert(t[j + 1] == cs@[a + j + 1]);
        }
    }
    true
}

/// Builds the command that runs entry point `key` of the repository at
/// `repo_path`, if `key` has one.
fn entry_command_of(key: &str, repo_path: &str) -> (r: Option<String>)
    ensures
        match entry_command(key@, repo_path@) {
            Some(c) => r matches Some(s) && s@ == c,
            None => r is None,
        },
{
    let cs = chars_of(key);
    proof {
        assert(cs@.subrange(0, cs@.len() as int) =~= cs@);
    }
    if script_name_at(&cs, 0, cs.len()) {
        return Some(String::from_str(key));
    }
    let i = crate::text::find_char(&cs, 0, cs.len(), ':');
    if i == cs.len() {
        return None;
    }
    proof {
        assert(cs@.take(i as int) =~= cs@.subrange(0, i as int));
        assert(cs@.skip(i + 1) =~= cs@.subrange(i + 1, cs@.len() as int));
    }
    if !module_path_at(&cs, 0, i) || !script_name_at(&cs, i + 1, cs.len()) {
        return None;
    }
    let module = string_of(&cs, 0, i);
    let func = string_of(&cs, i + 1, cs.len());
    let mut s = String::from_str("PYTHONPATH='");
    s.append(repo_path);
    s.append("' python -c 'from ");
    s.append(module.as_str());
    s.append(" import ");
    s.append(func.as_str());
    s.append("; ");
    s.append(func.as_str());
    s.append("()'");
    proof {
        assert(s@ =~= "PYTHONPATH='"@ + repo_path@ + "' python -c 'from "@ + cs@.take(i as int) + " import "@
            + cs@.skip(i + 1) + "; "@ + cs@.skip(i + 1) + "()'"@);
    }
    Some(s)
}

/// The shell command that runs entry point `script_key` of the repository at
/// `repo_path`, inside its virtual environment when one exists. A plain script
/// name runs as it is, a `module:function` key through `python -c` with the
/// repository on `PYTHONPATH`; an empty key, or one of neither form, is refused.
pub fn resolve_entrypoint_to_spawn_cmd(repo_path: &str, script_key: &str, base: &str) -> (r: Result<String, DiscoveryError>)
    ensures
        script_key@.len() == 0 ==> r == Err::<String, DiscoveryError>(DiscoveryError::EmptyScriptKey),
        script_key@.len() > 0 && entry_command(script_key@, repo_path@) is None ==> (r matches Err(
            DiscoveryError::InvalidScriptKey(k),
        ) && k@ == script_key@),
        entry_command(script_key@, repo_path@) matches Some(c) ==> (r matches Ok(cmd) && exists|flags: Seq<bool>|
            flags.len() == 3 && cmd@ == spawn_command(
                c,
                #[trigger] first_existing(venv_candidates(repo_path@, base@), flags),
            )),
{
    if script_key.unicode_len() == 0 {
        proof {
            assert(!is_script_name(script_key@));
            assert(crate::text::index_of(script_key@, ':') == 0);
        }
        return Err(DiscoveryError::EmptyScriptKey);
    }
    let command = match entry_command_of(script_key, repo_path) {
        Some(c) => c,
        None => return Err(DiscoveryError::InvalidScriptKey(String::from_str(script_key))),
    };
    let activation = detect_venv_activation(repo_path, base);
    let cmd = match &activation {
        Some(a) => spawn_command_with(command.as_str(), Some(a.as_str())),
        None => spawn_command_with(command.as_str(), None),
    };
    Ok(cmd)
}

/// Where a repository keeps its project description.
pub open spec fn pyproject_path(repo_path: Seq<char>) -> Seq<char> {
    path_join(repo_path, "pyproject.toml"@)
}

/// Builds the path of the repository's `pyproject.toml`.
pub fn pyproject_path_of(repo_path: &str) -> (r: String)
    ensures
        r@ == pyproject_path(repo_path@),
{
    let mut p = String::from_str(repo_path);
    push_component(&mut p, "pyproject.toml");
    p
}

/// A value of a TOML document. Floating-point numbers are only marked, not
/// kept: nothing here reads them.
#[derive(Debug)]
pub enum TomlValue {
    Text(String),
    Int(i64),
    Float,
    Bool(bool),
    Datetime(String),
    Array(Vec<TomlValue>),
    Table(Vec<(String, TomlValue)>),
}

#[verifier::external_type_specification]
#[verifier::external_body]
pub struct ExTomlValue(toml::Value);

/// The document that `toml::from_str` reads from `text`, or `None` when the
/// text is not valid TOML.
pub uninterp spec fn toml_document(text: Seq<char>) -> Option<TomlValue>;

/// Turns a parsed `toml::Value` into a [`TomlValue`], variant by variant.
#[verifier::external_body]
fn toml_value_from(v: toml::Value) -> TomlValue {
    match v {
        toml::Value::String(s) => TomlValue::Text(s),
        toml::Value::Integer(i) => TomlValue::Int(i),
        toml::Value::Float(_) => TomlValue::Float,
        toml::Value::Boolean(b) => TomlValue::Bool(b),
        toml::Value::Datetime(d) => TomlValue::Datetime(d.to_string()),
        toml::Value::Array(a) => TomlValue::Array(a.into_iter().map(toml_value_from).collect()),
        toml::Value::Table(t) => TomlValue::Table(t.into_iter().map(|(k, v)| (k, toml_value_from(v))).collect()),
    }
}

/// Parses `text` as a TOML document (`toml::from_str::<toml::Value>`).
#[verifier::external_body]
fn parse_toml(text: &str) -> (r: Option<TomlValue>)
    ensures
        r == toml_document(text@),
{
    match toml::from_str::<toml::Value>(text) {
        Ok(v) => Some(toml_value_from(v)),
        Err(_) => None,
    }
}

/// The value under `key` in a table's entries: the first entry with that key.
pub open spec fn table_get(entries: Seq<(String, TomlValue)>, key: Seq<char>) -> Option<TomlValue>
    decreases entries.len(),
{
    if entries.len() == 0 {
        None
    } else if entries[0].0@ == key {
        Some(entries[0].1)
    } else {
        table_get(entries.drop_first(), key)
    }
}

/// The value under `key` when `v` is a table.
pub open spec fn sub_value(v: Option<TomlValue>, key: Seq<char>) -> Option<TomlValue> {
    match v {
        Some(TomlValue::Table(t)) => table_get(t@, key),
        _ => None,
    }
}

/// Whether `s` ends with `suffix`.
pub open spec fn ends_with(s: Seq<char>, suffix: Seq<char>) -> bool {
    s.len() >= suffix.len() && s.subrange(s.len() - suffix.len(), s.len() as int) == suffix
}

/// The first script in a table of scripts whose name ends with `ati_plug`
/// and whose command is a string.
pub open spec fn first_plug(entries: Seq<(String, TomlValue)>) -> Option<Seq<char>>
    decreases entries.len(),
{
    if entries.len() == 0 {
        None
    } else if ends_with(entries[0].0@, "ati_plug"@) && entries[0].1 is Text {
        Some(entries[0].0@)
    } else {
        first_plug(entries.drop_first())
    }
}

/// The `ati_plug` script of a scripts table, when `v` is one.
pub open spec fn plug_in(v: Option<TomlValue>) -> Option<Seq<char>> {
    match v {
        Some(TomlValue::Table(t)) => first_plug(t@),
        _ => None,
    }
}

/// The `ati_plug` script a project declares: looked for in
/// `[project.scripts]`, then `[tool.uv.scripts]`, then a top-level
/// `[scripts]` table.
pub open spec fn ati_plug(doc: TomlValue) -> Option<Seq<char>> {
    let d = Some(doc);
    match plug_in(sub_value(sub_value(d, "project"@), "scripts"@)) {
        Some(k) => Some(k),
        None => match plug_in(sub_value(sub_value(sub_value(d, "tool"@), "uv"@), "scripts"@)) {
            Some(k) => Some(k),
            None => plug_in(sub_value(d, "scripts"@)),
        },
    }
}

/// The value under `key` when `v` is a table.
fn get_sub<'a>(v: Option<&'a TomlValue>, key: &str) -> (r: Option<&'a TomlValue>)
    ensures
        match r {
            Some(x) => sub_value(
                match v {
                    Some(y) => Some(*y),
                    None => None,
                },
                key@,
            ) == Some(*x),
            None => sub_value(
                match v {
                    Some(y) => Some(*y),
                    None => None,
                },
                key@,
            ) is None,
        },
{
    match v {
        Some(TomlValue::Table(t)) => {
            let k = String::from_str(key);
            let mut i: usize = 0;
            proof {
                assert(t@.skip(0) =~= t@);
            }
            while i < t.len()
                invariant
                    i <= t@.len(),
                    k@ == key@,
                    v matches Some(y) && *y == TomlValue::Table(*t),
                    table_get(t@, key@) == table_get(t@.skip(i as int), key@),
                decreases t@.len() - i,
            {
                proof {
                    assert(t@.skip(i as int).drop_first() =~= t@.skip(i + 1));
                }
                if t[i].0 == k {
                    proof {
                        assert(t@.skip(i as int)[0] == t@[i as int]);
                    }
                    return Some(&t[i].1);
                }
                i = i + 1;
            }
            None
        },
        _ => None,
    }
}

/// Whether `cs` ends with `suffix`.
fn ends_with_chars(cs: &Vec<char>, suffix: &Vec<char>) -> (r: bool)
    ensures
        r == ends_with(cs@, suffix@),
{
    let n = cs.len();
    let m = suffix.len();
    if m > n {
        return false;
    }
    let mut k: usize = 0;
    while k < m
        invariant
            n == cs@.len(),
            m == suffix@.len(),
            m <= n,
            k <= m,
            forall|j: int| 0 <= j < k ==> cs@[n - m + j] == suffix@[j],
        decreases m - k,
    {
        if cs[n - m + k] != suffix[k] {
            proof {
                assert(cs@.subrange(n - m, n as int)[k as int] != suffix@[k as int]);
            }
            return false;
        }
        k = k + 1;
    }
    proof {
        assert(cs@.subrange(n - m, n as int) =~= suffix@);
    }
    true
}

/// The `ati_plug` script of the scripts table `v`, if `v` is one.
fn plug_of(v: Option<&TomlValue>) -> (r: Option<String>)
    ensures
        match plug_in(
            match v {
                Some(y) => Some(*y),
                None => None,
            },
        ) {
            Some(k) => r matches Some(s) && s@ == k,
            None => r is None,
        },
{
    match v {
        Some(TomlValue::Table(t)) => {
            let suffix = chars_of("ati_plug");
            let mut i: usize = 0;
            proof {
                assert(t@.skip(0) =~= t@);
            }
            while i < t.len()
                invariant
                    i <= t@.len(),
                    suffix@ == "ati_plug"@,
                    v matches Some(y) && *y == TomlValue::Table(*t),
                    first_plug(t@) == first_plug(t@.skip(i as int)),
                decreases t@.len() - i,
            {
                proof {
                    assert(t@.skip(i as int).drop_first() =~= t@.skip(i + 1));
                }
                let name = chars_of(t[i].0.as_str());
                let is_str = match &t[i].1 {
                    TomlValue::Text(_) => true,
                    _ => false,
                };
                if is_str && ends_with_chars(&name, &suffix) {
                    proof {
                        assert(t@.skip(i as int)[0] == t@[i as int]);
                    }
                    return Some(t[i].0.clone());
                }
                i = i + 1;
            }
            None
        },
        _ => None,
    }
}

/// The `ati_plug` script that the project document `value` declares.
pub fn find_ati_plug(value: &TomlValue) -> (r: Option<String>)
    ensures
        match ati_plug(*value) {
            Some(k) => r matches Some(s) && s@ == k,
            None => r is None,
        },
{
    let project_scripts = get_sub(get_sub(Some(value), "project"), "scripts");
    match plug_of(project_scripts) {
        Some(k) => {
            return Some(k);
        },
        None => {},
    }
    let uv_scripts = get_sub(get_sub(get_sub(Some(value), "tool"), "uv"), "scripts");
    match plug_of(uv_scripts) {
        Some(k) => {
            return Some(k);
        },
        None => {},
    }
    plug_of(get_sub(Some(value), "scripts"))
}

/// The entry point that the parsed project description `doc` declares.
pub fn entrypoint_from_document(doc: Option<&TomlValue>) -> (r: Result<String, DiscoveryError>)
    ensures
        match doc {
            None => r == Err::<String, DiscoveryError>(DiscoveryError::ParseFailed),
            Some(d) => match ati_plug(*d) {
                Some(k) => r matches Ok(s) && s@ == k,
                None => r == Err::<String, DiscoveryError>(DiscoveryError::AtiPlugNotFound),
            },
        },
{
    match doc {
        None => Err(DiscoveryError::ParseFailed),
        Some(d) => match find_ati_plug(d) {
            Some(k) => Ok(k),
            None => Err(DiscoveryError::AtiPlugNotFound),
        },
    }
}

/// The entry point that the text of a `pyproject.toml` declares: its
/// `ati_plug` script, or an error when the text is not TOML or declares none.
pub fn entrypoint_from_pyproject(content: &str) -> (r: Result<String, DiscoveryError>)
    ensures
        match toml_document(content@) {
            None => r == Err::<String, DiscoveryError>(DiscoveryError::ParseFailed),
            Some(d) => match ati_plug(d) {
                Some(k) => r matches Ok(s) && s@ == k,
                None => r == Err::<String, DiscoveryError>(DiscoveryError::AtiPlugNotFound),
            },
        },
{
    let doc = parse_toml(content);
    match &doc {
        Some(d) => entrypoint_from_document(Some(d)),
        None => entrypoint_from_document(None),
    }
}

/// The `.local/share/<dir>` directory under `home`.
pub open spec fn share_dir(home: Seq<char>, dir: Seq<char>) -> Seq<char> {
    path_join(path_join(path_join(home, ".local"@), "share"@), dir)
}

/// Where a local clone of the repository at `url` may lie, in order, for a
/// user whose home is `home`: under `~/.local/share/covn`, then
/// `~/.local/share/drift`, first as `<owner>/<name>` and then as `<name>`
/// (owner and name being the URL's last two `/`-separated pieces). `None`
/// when the URL ends with `/` or is empty.
pub open spec fn local_repo_candidates(url: Seq<char>, home: Seq<char>) -> Option<Seq<Seq<char>>> {
    let parts = split_char(url, '/');
    let name = parts.last();
    if name.len() == 0 {
        None
    } else {
        let full = if parts.len() >= 2 {
            parts[parts.len() - 2] + "/"@ + name
        } else {
            name
        };
        Some(
            seq![
                path_join(share_dir(home, "covn"@), full),
                path_join(share_dir(home, "covn"@), name),
                path_join(share_dir(home, "drift"@), full),
                path_join(share_dir(home, "drift"@), name),
            ],
        )
    }
}

/// Builds the `.local/share/<dir>` directory under `home`.
fn share_dir_in(home: &str, dir: &str) -> (r: String)
    ensures
        r@ == share_dir(home@, dir@),
{
    let mut p = String::from_str(home);
    push_component(&mut p, ".local");
    push_component(&mut p, "share");
    push_component(&mut p, dir);
    p
}

/// Builds the places where a local clone of the repository at `url` may lie.
pub fn local_repo_candidate_paths(url: &str, home: &str) -> (r: Option<Vec<String>>)
    ensures
        match local_repo_candidates(url@, home@) {
            Some(c) => r matches Some(v) && crate::text::string_views(v@) == c,
            None => r is None,
        },
{
    let cs = chars_of(url);
    let b = split_bounds(&cs, '/');
    proof {
        crate::text::lemma_split_char_nonempty(cs@, '/');
        assert(pieces_of(cs@, b@).last() == cs@.subrange(b@.last().0 as int, b@.last().1 as int));
    }
    let n = b.len();
    let (ns, ne) = b[n - 1];
    if ns == ne {
        return None;
    }
    let name = string_of(&cs, ns, ne);
    let full = if n >= 2 {
        let (ps, pe) = b[n - 2];
        proof {
            assert(pieces_of(cs@, b@)[n - 2] == cs@.subrange(ps as int, pe as int));
        }
        let mut f = string_of(&cs, ps, pe);
        f.append("/");
        f.append(name.as_str());
        f
    } else {
        string_of(&cs, ns, ne)
    };
    let covn = share_dir_in(home, "covn");
    let drift = share_dir_in(home, "drift");
    let mut c1 = covn.clone();
    push_component(&mut c1, full.as_str());
    let mut c2 = covn;
    push_component(&mut c2, name.as_str());
    let mut c3 = drift.clone();
    push_component(&mut c3, full.as_str());
    let mut c4 = drift;
    push_component(&mut c4, name.as_str());
    let mut v: Vec<String> = Vec::new();
    v.push(c1);
    v.push(c2);
    v.push(c3);
    v.push(c4);
    proof {
        assert(crate::text::string_views(v@) =~= local_repo_candidates(url@, home@)->0);
    }
    Some(v)
}

/// A local clone of the repository at `url`: the first of
/// [`local_repo_candidates`] that exists on disk, for a user whose home is
/// `home`. `None` without a home directory or a repository name, or when
/// none exists.
pub fn find_local_repo_in(url: &str, home: Option<&str>) -> (r: Option<String>)
    ensures
        home is None ==> r is None,
        home matches Some(h) ==> match local_repo_candidates(url@, h@) {
            None => r is None,
            Some(c) => exists|flags: Seq<bool>|
                flags.len() == 4 && #[trigger] first_existing(c, flags) == match r {
                    Some(s) => Some(s@),
                    None => None::<Seq<char>>,
                },
        },
{
    match home {
        None => None,
        Some(h) => match local_repo_candidate_paths(url, h) {
            None => None,
            Some(candidates) => {
                let flags = existing_flags(&candidates);
                let r = pick_first_existing(&candidates, &flags);
                proof {
                    assert(first_existing(crate::text::string_views(candidates@), flags@) == match r {
                        Some(s) => Some(s@),
                        None => None::<Seq<char>>,
                    });
                }
                r
            },
        },
    }
}

/// The first line of `s` as `str::lines` gives it (without its line ending),
/// or `None` when `s` is empty.
pub open spec fn first_line(s: Seq<char>) -> Option<Seq<char>> {
    if s.len() == 0 {
        None
    } else {
        let l = split_char(s, '\n')[0];
        if l.len() > 0 && l.last() == '\r' {
            Some(l.drop_last())
        } else {
            Some(l)
        }
    }
}

/// The position of the first white-space character of `s`, or its length.
pub open spec fn ws_index(s: Seq<char>) -> int
    decreases s.len(),
{
    if s.len() == 0 {
        0
    } else if crate::text::is_ws(s[0]) {
        0
    } else {
        1 + ws_index(s.drop_first())
    }
}

/// The first white-space-separated word of `s` (`split_whitespace().next()`).
pub open spec fn first_word(s: Seq<char>) -> Option<Seq<char>> {
    let t = crate::text::trim_start(s);
    if t.len() == 0 {
        None
    } else {
        Some(t.subrange(0, ws_index(t)))
    }
}

/// The commit hash in the output of `git ls-remote <repo> HEAD`: the first
/// word of the first line.
pub open spec fn ls_remote_head(out: Seq<char>) -> Option<Seq<char>> {
    match first_line(out) {
        Some(l) => first_word(l),
        None => None,
    }
}

/// The commit hash in the output of `git ls-remote <repo> HEAD`: the first
/// word of the first line.
pub fn parse_ls_remote_head(out: &str) -> (r: Option<String>)
    ensures
        match ls_remote_head(out@) {
            Some(h) => r matches Some(s) && s@ == h,
            None => r is None,
        },
{
    let cs = chars_of(out);
    if cs.len() == 0 {
        return None;
    }
    let b = split_bounds(&cs, '\n');
    proof {
        crate::text::lemma_split_char_nonempty(cs@, '\n');
        assert(pieces_of(cs@, b@)[0] == cs@.subrange(b@[0].0 as int, b@[0].1 as int));
    }
    let (ls, le0) = b[0];
    let le = if le0 > ls && cs[le0 - 1] == '\r' {
        le0 - 1
    } else {
        le0
    };
    proof {
        let l = cs@.subrange(ls as int, le0 as int);
        if le0 > ls && cs@[le0 - 1] == '\r' {
            assert(l.drop_last() =~= cs@.subrange(ls as int, le as int));
        }
    }
    let ghost line = cs@.subrange(ls as int, le as int);
    let mut s: usize = ls;
    while s < le && crate::text::char_is_ws(cs[s])
        invariant
            ls <= s <= le <= cs@.len(),
            line == cs@.subrange(ls as int, le as int),
            crate::text::trim_start(line) == crate::text::trim_start(cs@.subrange(s as int, le as int)),
        decreases le - s,
    {
        proof {
            assert(cs@.subrange(s as int, le as int).drop_first() =~= cs@.subrange(s + 1, le as int));
        }
        s = s + 1;
    }
    if s == le {
        proof {
            assert(cs@.subrange(s as int, le as int).len() == 0);
        }
        return None;
    }
    let ghost t = cs@.subrange(s as int, le as int);
    let mut e: usize = s;
    while e < le && !crate::text::char_is_ws(cs[e])
        invariant
            s <= e <= le <= cs@.len(),
            t == cs@.subrange(s as int, le as int),
            ws_index(t) == (e - s) + ws_index(cs@.subrange(e as int, le as int)),
        decreases le - e,
    {
        proof {
            assert(cs@.subrange(e as int, le as int).drop_first() =~= cs@.subrange(e + 1, le as int));
        }
        e = e + 1;
    }
    proof {
        assert(t.subrange(0, e - s) =~= cs@.subrange(s as int, e as int));
    }
    Some(string_of(&cs, s, e))
}

/// Where a repository that is not provisioned gets cloned:
/// `<base>/drift/<suffix>`.
pub open spec fn clone_destination(url: Seq<char>, base: Seq<char>) -> Seq<char> {
    path_join(path_join(base, "drift"@), repo_suffix(url))
}

/// Builds the directory a repository gets cloned into.
pub fn clone_destination_of(url: &str, base: &str) -> (r: String)
    ensures
        r@ == clone_destination(url@, base@),
{
    let suffix = repo_suffix_from_url(url);
    let mut p = String::from_str(base);
    push_component(&mut p, "drift");
    push_component(&mut p, suffix.as_str());
    p
}

/// Whether a repository reference names a local checkout (it has no `://`),
/// whose commit is read with `git rev-parse` before `git ls-remote` is tried.
pub fn is_local_checkout(repo_url: &str) -> (r: bool)
    ensures
        r == !crate::text::is_substr(repo_url@, seq![':', '/', '/']),
{
    let cs = chars_of(repo_url);
    let mut sep: Vec<char> = Vec::new();
    sep.push(':');
    sep.push('/');
    sep.push('/');
    proof {
        assert(sep@ =~= seq![':', '/', '/']);
    }
    !crate::text::contains_chars(&cs, &sep)
}

/// How a node trains once it may start.
#[derive(Debug, Clone, Copy, PartialEq, Eq)]
pub enum TrainingMode {
    /// A repository is named but no entry point was found: refused.
    MissingEntrypoint,
    /// Neither is given and the model path is no Python file: a simulated run.
    Simulated,
    /// An entry point is known, or the model path is a Python file: the real
    /// training script.
    Real,
}

/// How to train: with an entry point, really; with a repository but no entry
/// point, not at all; otherwise really when the model path is a `.py` file,
/// and simulated when it is not.
pub open spec fn training_mode_of(has_repo_url: bool, has_entrypoint: bool, model_path: Seq<char>) -> TrainingMode {
    if has_entrypoint {
        TrainingMode::Real
    } else if has_repo_url {
        TrainingMode::MissingEntrypoint
    } else if ends_with(model_path, ".py"@) {
        TrainingMode::Real
    } else {
        TrainingMode::Simulated
    }
}

/// How to train, from whether the configuration names a training repository,
/// whether an entry point is known, and the model path.
pub fn training_mode(has_repo_url: bool, has_entrypoint: bool, model_path: &str) -> (r: TrainingMode)
    ensures
        r == training_mode_of(has_repo_url, has_entrypoint, model_path@),
{
    if has_entrypoint {
        TrainingMode::Real
    } else if has_repo_url {
        TrainingMode::MissingEntrypoint
    } else {
        let cs = chars_of(model_path);
        let mut suffix: Vec<char> = Vec::new();
        suffix.push('.');
        suffix.push('p');
        suffix.push('y');
        proof {
            reveal_strlit(".py");
            assert(suffix@ =~= ".py"@);
        }
        if ends_with_chars(&cs, &suffix) {
            TrainingMode::Real
        } else {
            TrainingMode::Simulated
        }
    }
}

} // verus!
