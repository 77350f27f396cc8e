//! Environment variables shared with training nodes: read from a `.env`-style
//! file, with anything that looks like a credential filtered out before it is
//! sent.
use vstd::prelude::*;
use crate::text::{
    chars_of, contains_chars, find_char, index_of, is_substr, split_char, string_of, trim,
    trim_bounds, lemma_split_char_nonempty,
};
use crate::platform::path_exists;

verus! {

/// A set of environment variables, in the order they were first set; no name
/// occurs twice.
pub struct EnvVars {
    entries: Vec<(String, String)>,
}

/// Name and value of each entry, as characters.
pub open spec fn pair_views(s: Seq<(String, String)>) -> Seq<(Seq<char>, Seq<char>)> {
    s.map_values(|e: (String, String)| (e.0@, e.1@))
}

/// Whether no name occurs twice.
pub open spec fn names_unique(s: Seq<(Seq<char>, Seq<char>)>) -> bool {
    forall|i: int, j: int| 0 <= i < j < s.len() ==> (#[trigger] s[i]).0 != (#[trigger] s[j]).0
}

/// Whether some entry is named `k`.
pub open spec fn has_name(s: Seq<(Seq<char>, Seq<char>)>, k: Seq<char>) -> bool {
    exists|i: int| 0 <= i < s.len() && (#[trigger] s[i]).0 == k
}

/// The value of the entry named `k`, if any.
pub open spec fn value_of(s: Seq<(Seq<char>, Seq<char>)>, k: Seq<char>) -> Option<Seq<char>> {
    if has_name(s, k) {
        Some(s[choose|i: int| 0 <= i < s.len() && (#[trigger] s[i]).0 == k].1)
    } else {
        None
    }
}

/// `s` with variable `k` set to `v`: an entry named `k` gets the new value in
/// place; otherwise the entry goes at the end.
pub open spec fn set_var(s: Seq<(Seq<char>, Seq<char>)>, k: Seq<char>, v: Seq<char>) -> Seq<(Seq<char>, Seq<char>)> {
    if has_name(s, k) {
        s.update(choose|i: int| 0 <= i < s.len() && (#[trigger] s[i]).0 == k, (k, v))
    } else {
        s.push((k, v))
    }
}

impl View for EnvVars {
    type V = Seq<(Seq<char>, Seq<char>)>;

    closed spec fn view(&self) -> Seq<(Seq<char>, Seq<char>)> {
        pair_views(self.entries@)
    }
}

impl EnvVars {
    #[verifier::type_invariant]
    spec fn wf(self) -> bool {
        names_unique(pair_views(self.entries@))
    }

    /// No variables.
    pub fn new() -> (r: Self)
        ensures
            r@ == Seq::<(Seq<char>, Seq<char>)>::empty(),
    {
        let r = EnvVars { entries: Vec::new() };
        proof {
            assert(pair_views(r.entries@) =~= Seq::<(Seq<char>, Seq<char>)>::empty());
        }
        r
    }

    /// The position of the entry named `key`.
    fn position(&self, key: &String) -> (r: Option<usize>)
        ensures
            r matches Some(i) ==> i < self@.len() && self@[i as int].0 == key@,
            r is None ==> !has_name(self@, key@),
    {
        let mut i: usize = 0;
        while i < self.entries.len()
            invariant
                i <= self.entries@.len(),
                forall|j: int| 0 <= j < i ==> (#[trigger] self.entries@[j]).0@ != key@,
            decreases self.entries@.len() - i,
        {
            if self.entries[i].0 == *key {
                return Some(i);
            }
            i = i + 1;
        }
        proof {
            if has_name(self@, key@) {
                let j = choose|j: int| 0 <= j < self@.len() && (#[trigger] self@[j]).0 == key@;
                assert(self.entries@[j].0@ == key@);
            }
        }
        None
    }

    /// Sets variable `key` to `value`, keeping its place if it was already set.
    pub fn insert(&mut self, key: String, value: String)
        ensures
            final(self)@ == set_var(old(self)@, key@, value@),
    {
        proof {
            use_type_invariant(&*self);
        }
        match self.position(&key) {
            Some(i) => {
                proof {
                    let c = choose|j: int| 0 <= j < self@.len() && (#[trigger] self@[j]).0 == key@;
                    assert(self@[i as int].0 == self@[c].0);
                }
                let mut entries: Vec<(String, String)> = Vec::new();
                std::mem::swap(&mut entries, &mut self.entries);
                let ghost before = entries@;
                entries.set(i, (key, value));
                proof {
                    assert(pair_views(entries@) =~= pair_views(before).update(i as int, (key@, value@)));
                    assert(names_unique(pair_views(entries@))) by {
                        assert forall|a: int, b: int| 0 <= a < b < pair_views(entries@).len() implies
                            (#[trigger] pair_views(entries@)[a]).0 != (#[trigger] pair_views(entries@)[b]).0 by {
                            assert(pair_views(before)[a].0 != pair_views(before)[b].0);
                        }
                    }
                }
                self.entries = entries;
            },
            None => {
                let mut entries: Vec<(String, String)> = Vec::new();
                std::mem::swap(&mut entries, &mut self.entries);
                let ghost before = entries@;
                entries.push((key, value));
                proof {
                    assert(pair_views(entries@) =~= pair_views(before).push((key@, value@)));
                    assert(names_unique(pair_views(entries@))) by {
                        assert forall|a: int, b: int| 0 <= a < b < pair_views(entries@).len() implies
                            (#[trigger] pair_views(entries@)[a]).0 != (#[trigger] pair_views(entries@)[b]).0 by {
                            if b < pair_views(before).len() {
                                assert(pair_views(before)[a].0 != pair_views(before)[b].0);
                            } else {
                                assert(pair_views(before)[a].0 != key@);
                            }
                        }
                    }
                }
                self.entries = entries;
            },
        }
    }

    /// Whether variable `key` is set.
    pub fn contains_key(&self, key: &str) -> (r: bool)
        ensures
            r == has_name(self@, key@),
    {
        let k = String::from_str(key);
        self.position(&k).is_some()
    }

    /// The value of variable `key`, if it is set.
    pub fn get(&self, key: &str) -> (r: Option<String>)
        ensures
            r is Some <==> has_name(self@, key@),
            r matches Some(v) ==> value_of(self@, key@) == Some(v@),
    {
        proof {
            use_type_invariant(self);
        }
        let k = String::from_str(key);
        match self.position(&k) {
            Some(i) => {
                proof {
                    let c = choose|j: int| 0 <= j < self@.len() && (#[trigger] self@[j]).0 == key@;
                    assert(self@[i as int].0 == self@[c].0);
                }
                Some(self.entries[i].1.clone())
            },
            None => None,
        }
    }

    /// The number of variables.
    pub fn len(&self) -> (r: usize)
        ensures
            r == self@.len(),
    {
        self.entries.len()
    }

    /// Whether no variable is set.
    pub fn is_empty(&self) -> (r: bool)
        ensures
            r == (self@.len() == 0),
    {
        self.entries.len() == 0
    }

    /// The variables as name and value pairs, in order.
    pub fn pairs(&self) -> (r: Vec<(String, String)>)
        ensures
            pair_views(r@) == self@,
            names_unique(self@),
    {
        proof {
            use_type_invariant(self);
        }
        let mut out: Vec<(String, String)> = Vec::new();
        let mut i: usize = 0;
        while i < self.entries.len()
            invariant
                i <= self.entries@.len(),
                pair_views(out@) == pair_views(self.entries@).take(i as int),
            decreases self.entries@.len() - i,
        {
            let name = self.entries[i].0.clone();
            let value = self.entries[i].1.clone();
            let ghost prev = out@;
            out.push((name, value));
            proof {
                assert(pair_views(out@) =~= pair_views(prev).push(pair_views(self.entries@)[i as int]));
            }
            i = i + 1;
            proof {
                assert(pair_views(out@) =~= pair_views(self.entries@).take(i as int));
            }
        }
        proof {
            assert(pair_views(self.entries@).take(i as int) =~= pair_views(self.entries@));
        }
        out
    }
}

impl Clone for EnvVars {
    /// A copy holding the same variables in the same order.
    fn clone(&self) -> (r: Self)
        ensures
            r@ == self@,
    {
        EnvVars { entries: self.pairs() }
    }
}

/// Whether a variable name looks like a credential: it contains `KEY`,
/// `SECRET`, `TOKEN`, `PASSWORD`, `PASS` or `AUTH` (case matters).
pub open spec fn is_sensitive_name(k: Seq<char>) -> bool {
    ||| is_substr(k, "KEY"@)
    ||| is_substr(k, "SECRET"@)
    ||| is_substr(k, "TOKEN"@)
    ||| is_substr(k, "PASSWORD"@)
    ||| is_substr(k, "PASS"@)
    ||| is_substr(k, "AUTH"@)
}

/// Whether the variable name `k` looks like a credential.
pub fn is_sensitive(k: &String) -> (r: bool)
    ensures
        r == is_sensitive_name(k@),
{
    let cs = chars_of(k.as_str());
    let key = chars_of("KEY");
    let secret = chars_of("SECRET");
    let token = chars_of("TOKEN");
    let password = chars_of("PASSWORD");
    let pass = chars_of("PASS");
    let auth = chars_of("AUTH");
    contains_chars(&cs, &key) || contains_chars(&cs, &secret) || contains_chars(&cs, &token)
        || contains_chars(&cs, &password) || contains_chars(&cs, &pass) || contains_chars(&cs, &auth)
}

/// The variables whose names do not look like credentials, in their order.
pub open spec fn without_sensitive(s: Seq<(Seq<char>, Seq<char>)>) -> Seq<(Seq<char>, Seq<char>)> {
    s.filter(|e: (Seq<char>, Seq<char>)| !is_sensitive_name(e.0))
}

/// Drops every variable whose name looks like a credential.
pub fn filter_sensitive_keys(env_vars: EnvVars) -> (r: EnvVars)
    ensures
        r@ == without_sensitive(env_vars@),
{
    proof {
        use_type_invariant(&env_vars);
    }
    let ghost pred = |e: (Seq<char>, Seq<char>)| !is_sensitive_name(e.0);
    let ghost all = env_vars@;
    let mut out: Vec<(String, String)> = Vec::new();
    let mut i: usize = 0;
    while i < env_vars.entries.len()
        invariant
            i <= env_vars.entries@.len(),
            all == pair_views(env_vars.entries@),
            names_unique(all),
            pred == (|e: (Seq<char>, Seq<char>)| !is_sensitive_name(e.0)),
            pair_views(out@) == all.take(i as int).filter(pred),
            names_unique(pair_views(out@)),
            forall|a: int| 0 <= a < out@.len() ==> exists|j: int| 0 <= j < i && (#[trigger] all[j]).0
                == (#[trigger] pair_views(out@)[a]).0,
        decreases env_vars.entries@.len() - i,
    {
        proof {
            let next = all.take(i + 1);
            assert(next.drop_last() =~= all.take(i as int));
            assert(next.last() == all[i as int]);
            reveal_with_fuel(Seq::filter, 1);
        }
        if !is_sensitive(&env_vars.entries[i].0) {
            let ghost prev = pair_views(out@);
            let name = env_vars.entries[i].0.clone();
            let value = env_vars.entries[i].1.clone();
            out.push((name, value));
            proof {
                assert(pair_views(out@) =~= prev.push(all[i as int]));
                assert forall|a: int, b: int| 0 <= a < b < pair_views(out@).len() implies
                    (#[trigger] pair_views(out@)[a]).0 != (#[trigger] pair_views(out@)[b]).0 by {
                    if b < prev.len() {
                        assert(prev[a].0 != prev[b].0);
                    } else {
                        let j = choose|j: int| 0 <= j < i && (#[trigger] all[j]).0 == prev[a].0;
                        assert(all[j].0 != all[i as int].0);
                    }
                }
                assert forall|a: int| 0 <= a < out@.len() implies exists|j: int| 0 <= j < i + 1 && (
                #[trigger] all[j]).0 == (#[trigger] pair_views(out@)[a]).0 by {
                    if a < prev.len() {
                        let j = choose|j: int| 0 <= j < i && (#[trigger] all[j]).0 == prev[a].0;
                        assert(all[j].0 == pair_views(out@)[a].0);
                    } else {
                        assert(all[i as int].0 == pair_views(out@)[a].0);
                    }
                }
            }
        }
        i = i + 1;
    }
    proof {
        assert(all.take(i as int) =~= all);
    }
    EnvVars { entries: out }
}

/// What one line of an environment file sets: nothing for a blank line, a
/// `#` comment or a line without `=`; otherwise the trimmed text before the
/// first `=` as the name and the trimmed text after it as the value.
pub open spec fn env_line(line: Seq<char>) -> Option<(Seq<char>, Seq<char>)> {
    let t = trim(line);
    if t.len() == 0 || t[0] == '#' {
        None
    } else {
        let k = index_of(t, '=');
        if k == t.len() {
            None
        } else {
            Some((trim(t.subrange(0, k)), trim(t.subrange(k + 1, t.len() as int))))
        }
    }
}

/// The variables that a sequence of lines sets, later lines overriding
/// earlier ones.
pub open spec fn env_from_lines(lines: Seq<Seq<char>>) -> Seq<(Seq<char>, Seq<char>)>
    decreases lines.len(),
{
    if lines.len() == 0 {
        Seq::<(Seq<char>, Seq<char>)>::empty()
    } else {
        let acc = env_from_lines(lines.drop_last());
        match env_line(lines.last()) {
            Some(kv) => set_var(acc, kv.0, kv.1),
            None => acc,
        }
    }
}

/// The variables that the text of an environment file sets.
pub open spec fn parse_env(content: Seq<char>) -> Seq<(Seq<char>, Seq<char>)> {
    env_from_lines(split_char(content, '\n'))
}

/// Reads the line `cs[a..b]` of an environment file.
fn parse_env_line(cs: &Vec<char>, a: usize, b: usize) -> (r: Option<(String, String)>)
    requires
        a <= b <= cs@.len(),
    ensures
        match env_line(cs@.subrange(a as int, b as int)) {
            Some(kv) => r matches Some(p) && p.0@ == kv.0 && p.1@ == kv.1,
            None => r is None,
        },
{
    let ghost line = cs@.subrange(a as int, b as int);
    let (s, e) = trim_bounds(cs, a, b);
    let ghost t = cs@.subrange(s as int, e as int);
    if s == e || cs[s] == '#' {
        return None;
    }
    let k = find_char(cs, s, e, '=');
    if k == e {
        return None;
    }
    let (ks, ke) = trim_bounds(cs, s, k);
    let (vs, ve) = trim_bounds(cs, k + 1, e);
    proof {
        assert(cs@.subrange(s as int, k as int) =~= t.subrange(0, k - s));
        assert(cs@.subrange(k + 1, e as int) =~= t.subrange(k - s + 1, t.len() as int));
    }
    Some((string_of(cs, ks, ke), string_of(cs, vs, ve)))
}

/// Applies one line of an environment file to `vars`.
fn apply_env_line(vars: &mut EnvVars, cs: &Vec<char>, a: usize, b: usize)
    requires
        a <= b <= cs@.len(),
    ensures
        final(vars)@ == match env_line(cs@.subrange(a as int, b as int)) {
            Some(kv) => set_var(old(vars)@, kv.0, kv.1),
            None => old(vars)@,
        },
{
    match parse_env_line(cs, a, b) {
        Some((k, v)) => vars.insert(k, v),
        None => {},
    }
}

/// Reads the text of an environment file: one `NAME=value` per line, with
/// blank lines and `#` comments skipped and later lines overriding earlier
/// ones.
pub fn parse_env_content(content: &str) -> (r: EnvVars)
    ensures
        r@ == parse_env(content@),
{
    let cs = chars_of(content);
    let mut vars = EnvVars::new();
    let mut start: usize = 0;
    let mut i: usize = 0;
    let ghost mut done: Seq<Seq<char>> = Seq::empty();
    proof {
        assert(cs@.take(0) =~= Seq::<char>::empty());
        assert(cs@.subrange(0, 0) =~= Seq::<char>::empty());
    }
    while i < cs.len()
        invariant
            start <= i <= cs@.len(),
            split_char(cs@.take(i as int), '\n') == done.push(cs@.subrange(start as int, i as int)),
            vars@ == env_from_lines(done),
        decreases cs@.len() - i,
    {
        let ghost cur = cs@.subrange(start as int, i as int);
        proof {
            assert(cs@.take(i + 1).drop_last() =~= cs@.take(i as int));
            assert(cs@.take(i + 1).last() == cs@[i as int]);
            lemma_split_char_nonempty(cs@.take(i as int), '\n');
        }
        if cs[i] == '\n' {
            apply_env_line(&mut vars, &cs, start, i);
            proof {
                assert(done.push(cur).drop_last() =~= done);
                done = done.push(cur);
                assert(cs@.subrange(i + 1, i + 1) =~= Seq::<char>::empty());
            }
            start = i + 1;
        } else {
            proof {
                assert(cs@.subrange(start as int, i + 1) =~= cur.push(cs@[i as int]));
                assert(done.push(cur).update(done.len() as int, cur.push(cs@[i as int])) =~= done.push(
                    cs@.subrange(start as int, i + 1),
                ));
            }
        }
        i = i + 1;
    }
    let ghost cur = cs@.subrange(start as int, i as int);
    apply_env_line(&mut vars, &cs, start, i);
    proof {
        assert(cs@.take(i as int) =~= cs@);
        assert(done.push(cur).drop_last() =~= done);
    }
    vars
}

/// The text of `s` as shell assignments: `NAME=value ` for each variable, in
/// order.
pub open spec fn env_prefix_text(s: Seq<(Seq<char>, Seq<char>)>) -> Seq<char>
    decreases s.len(),
{
    if s.len() == 0 {
        Seq::<char>::empty()
    } else {
        env_prefix_text(s.drop_last()) + s.last().0 + "="@ + s.last().1 + " "@
    }
}

/// Renders the variables as assignments to put in front of a shell command.
pub fn env_prefix(vars: &EnvVars) -> (r: String)
    ensures
        r@ == env_prefix_text(vars@),
{
    let mut out = String::new();
    let mut i: usize = 0;
    while i < vars.entries.len()
        invariant
            i <= vars.entries@.len(),
            out@ == env_prefix_text(pair_views(vars.entries@).take(i as int)),
        decreases vars.entries@.len() - i,
    {
        let ghost prev = out@;
        out.append(vars.entries[i].0.as_str());
        out.append("=");
        out.append(vars.entries[i].1.as_str());
        out.append(" ");
        proof {
            let next = pair_views(vars.entries@).take(i + 1);
            assert(next.drop_last() =~= pair_views(vars.entries@).take(i as int));
            assert(out@ =~= env_prefix_text(next));
        }
        i = i + 1;
    }
    proof {
        assert(pair_views(vars.entries@).take(i as int) =~= pair_views(vars.entries@));
    }
    out
}

/// The environment file to use: the one asked for, or else `.env.shared`
/// when `default_exists` says that file is there.
pub fn resolve_env_file_with(override_path: Option<&str>, default_exists: bool) -> (r: Option<String>)
    ensures
        match override_path {
            Some(p) => r matches Some(s) && s@ == p@,
            None => if default_exists {
                r matches Some(s) && s@ == ".env.shared"@
            } else {
                r is None
            },
        },
{
    match override_path {
        Some(p) => Some(String::from_str(p)),
        None => {
            if default_exists {
                Some(String::from_str(".env.shared"))
            } else {
                None
            }
        },
    }
}

/// The environment file to use: the one asked for, or else `.env.shared` if
/// such a file exists in the working directory.
pub fn resolve_env_file(override_path: Option<&str>) -> (r: Option<String>)
    ensures
        override_path matches Some(p) ==> r matches Some(s) && s@ == p@,
        override_path is None ==> r is None || (r matches Some(s) && s@ == ".env.shared"@),
{
    match override_path {
        Some(p) => resolve_env_file_with(Some(p), false),
        None => {
            let exists = path_exists(".env.shared");
            resolve_env_file_with(None, exists)
        },
    }
}

} // verus!
