//! Core types for the Shally framework: the shell state, the plugin
//! configuration and the key/value variables that hooks exchange.
use vstd::prelude::*;
use crate::text::string_of;

verus! {

/// The abstract content of a [`StringMap`]: its `(key, value)` pairs in
/// insertion order.
pub type VarsView = Seq<(Seq<char>, Seq<char>)>;

/// `i` is the position of key `k` in `s` (its first occurrence).
pub open spec fn key_at(s: VarsView, k: Seq<char>, i: int) -> bool {
    &&& 0 <= i < s.len()
    &&& s[i].0 == k
    &&& forall|j: int| 0 <= j < i ==> s[j].0 != k
}

/// Key `k` is present in `s`.
pub open spec fn has_key(s: VarsView, k: Seq<char>) -> bool {
    exists|i: int| 0 <= i < s.len() && s[i].0 == k
}

/// The position of key `k` in `s`.
pub open spec fn key_position(s: VarsView, k: Seq<char>) -> int {
    choose|i: int| key_at(s, k, i)
}

/// No key occurs twice in `s`.
pub open spec fn keys_unique(s: VarsView) -> bool {
    forall|i: int, j: int| 0 <= i < j < s.len() ==> s[i].0 != s[j].0
}

/// The value stored under `k`, if any.
pub open spec fn vars_get(s: VarsView, k: Seq<char>) -> Option<Seq<char>> {
    if has_key(s, k) {
        Some(s[key_position(s, k)].1)
    } else {
        None
    }
}

/// `s` after storing `v` under `k`: an existing key keeps its place and gets
/// the new value, a new key is appended.
pub open spec fn vars_insert(s: VarsView, k: Seq<char>, v: Seq<char>) -> VarsView {
    if has_key(s, k) {
        s.update(key_position(s, k), (k, v))
    } else {
        s.push((k, v))
    }
}

/// In a sequence with unique keys, the position of a present key is the only
/// index holding it.
pub proof fn lemma_key_position(s: VarsView, k: Seq<char>, i: int)
    requires
        keys_unique(s),
        0 <= i < s.len(),
        s[i].0 == k,
    ensures
        has_key(s, k),
        key_position(s, k) == i,
{
    assert(key_at(s, k, i));
    let p = key_position(s, k);
    if p != i {
        assert(s[p].0 == k);
    }
}

/// Storing a value keeps keys unique.
pub proof fn lemma_insert_keeps_keys_unique(s: VarsView, k: Seq<char>, v: Seq<char>)
    requires
        keys_unique(s),
    ensures
        keys_unique(vars_insert(s, k, v)),
{
    if has_key(s, k) {
        let i = choose|i: int| 0 <= i < s.len() && s[i].0 == k;
        lemma_key_position(s, k, i);
    }
}

/// Reading a key back after storing it gives the stored value; storing under
/// one key leaves every other key as it was.
pub proof fn lemma_get_after_insert(s: VarsView, k: Seq<char>, v: Seq<char>, other: Seq<char>)
    requires
        keys_unique(s),
    ensures
        vars_get(vars_insert(s, k, v), k) == Some(v),
        other != k ==> vars_get(vars_insert(s, k, v), other) == vars_get(s, other),
{
    let t = vars_insert(s, k, v);
    lemma_insert_keeps_keys_unique(s, k, v);
    if has_key(s, k) {
        let i = choose|i: int| 0 <= i < s.len() && s[i].0 == k;
        lemma_key_position(s, k, i);
        lemma_key_position(t, k, i);
    } else {
        lemma_key_position(t, k, s.len() as int);
    }
    if other != k {
        if has_key(s, other) {
            let j = choose|j: int| 0 <= j < s.len() && s[j].0 == other;
            lemma_key_position(s, other, j);
            lemma_key_position(t, other, j);
        } else {
            assert(!has_key(t, other)) by {
                if has_key(t, other) {
                    let j = choose|j: int| 0 <= j < t.len() && t[j].0 == other;
                    assert(s[j].0 == other);
                }
            }
        }
    }
}

/// A map from string keys to string values. Keys are unique; pairs keep the
/// order in which their keys were first stored.
#[derive(Debug)]
pub struct StringMap {
    entries: Vec<(String, String)>,
}

impl View for StringMap {
    type V = VarsView;

    closed spec fn view(&self) -> VarsView {
        self.entries@.map_values(|e: (String, String)| (e.0@, e.1@))
    }
}

impl StringMap {
    #[verifier::type_invariant]
    spec fn unique_keys(self) -> bool {
        keys_unique(self@)
    }

    /// An empty map.
    pub fn new() -> (r: Self)
        ensures
            r@ == Seq::<(Seq<char>, Seq<char>)>::empty(),
    {
        let r = StringMap { entries: Vec::new() };
        assert(r@ =~= Seq::<(Seq<char>, Seq<char>)>::empty());
        r
    }

    /// The index holding `key`, if any.
    fn position(&self, key: &String) -> (r: Option<usize>)
        ensures
            match r {
                Some(i) => key_at(self@, key@, i as int),
                None => !has_key(self@, key@),
            },
    {
        let mut i: usize = 0;
        while i < self.entries.len()
            invariant
                i <= self.entries.len(),
                self@.len() == self.entries@.len(),
                forall|j: int| 0 <= j < i ==> self@[j].0 != key@,
            decreases self.entries.len() - i,
        {
            if self.entries[i].0 == *key {
                return Some(i);
            }
            i = i + 1;
        }
        None
    }

    /// Stores `value` under `key` and returns the value it replaces
    /// (`HashMap::insert`).
    pub fn insert(&mut self, key: String, value: String) -> (r: Option<String>)
        ensures
            final(self)@ == vars_insert(old(self)@, key@, value@),
            keys_unique(old(self)@),
            keys_unique(final(self)@),
            match r {
                Some(prev) => vars_get(old(self)@, key@) == Some(prev@),
                None => vars_get(old(self)@, key@) is None,
            },
    {
        proof {
            use_type_invariant(&*self);
        }
        let ghost s = self@;
        match self.position(&key) {
            Some(i) => {
                proof {
                    lemma_key_position(s, key@, i as int);
                    lemma_insert_keeps_keys_unique(s, key@, value@);
                }
                let mut entries = Vec::new();
                std::mem::swap(&mut entries, &mut self.entries);
                let prev = entries[i].1.clone();
                entries.set(i, (key, value));
                assert(entries@.map_values(|e: (String, String)| (e.0@, e.1@)) =~= vars_insert(s, key@, value@));
                self.entries = entries;
                Some(prev)
            },
            None => {
                proof {
                    lemma_insert_keeps_keys_unique(s, key@, value@);
                }
                let mut entries = Vec::new();
                std::mem::swap(&mut entries, &mut self.entries);
                entries.push((key, value));
                assert(entries@.map_values(|e: (String, String)| (e.0@, e.1@)) =~= vars_insert(s, key@, value@));
                self.entries = entries;
                None
            },
        }
    }

    /// The value stored under `key` (`HashMap::get`).
    pub fn get(&self, key: &str) -> (r: Option<&String>)
        ensures
            match r {
                Some(v) => vars_get(self@, key@) == Some(v@),
                None => vars_get(self@, key@) is None,
            },
    {
        proof {
            use_type_invariant(self);
        }
        let k = string_of(key);
        match self.position(&k) {
            Some(i) => {
                proof {
                    lemma_key_position(self@, key@, i as int);
                }
                Some(&self.entries[i].1)
            },
            None => None,
        }
    }

    /// Whether `key` is stored (`HashMap::contains_key`).
    pub fn contains_key(&self, key: &str) -> (r: bool)
        ensures
            r == has_key(self@, key@),
    {
        let k = string_of(key);
        self.position(&k).is_some()
    }

    /// The number of stored keys.
    pub fn len(&self) -> (r: usize)
        ensures
            r == self@.len(),
    {
        self.entries.len()
    }

    /// Whether no key is stored.
    pub fn is_empty(&self) -> (r: bool)
        ensures
            r == (self@.len() == 0),
    {
        self.entries.len() == 0
    }

    /// The `i`-th pair in insertion order.
    pub fn pair(&self, i: usize) -> (r: (&String, &String))
        requires
            i < self@.len(),
        ensures
            r.0@ == self@[i as int].0,
            r.1@ == self@[i as int].1,
    {
        let e = &self.entries[i];
        (&e.0, &e.1)
    }

    /// An independent copy of the map.
    pub fn duplicate(&self) -> (r: Self)
        ensures
            r@ == self@,
    {
        proof {
            use_type_invariant(self);
        }
        let mut entries: Vec<(String, String)> = Vec::new();
        let mut i: usize = 0;
        while i < self.entries.len()
            invariant
                i <= self.entries.len(),
                entries@.map_values(|e: (String, String)| (e.0@, e.1@)) =~= self@.take(i as int),
                self@.len() == self.entries@.len(),
            decreases self.entries.len() - i,
        {
            let e = &self.entries[i];
            let k = e.0.clone();
            let v = e.1.clone();
            assert(k@ == self@[i as int].0 && v@ == self@[i as int].1);
            let ghost before = entries@;
            entries.push((k, v));
            assert(entries@.map_values(|e: (String, String)| (e.0@, e.1@)) =~= before.map_values(
                |e: (String, String)| (e.0@, e.1@),
            ).push(self@[i as int]));
            i = i + 1;
            assert(entries@.map_values(|e: (String, String)| (e.0@, e.1@)) =~= self@.take(i as int));
        }
        assert(self@.take(i as int) =~= self@);
        StringMap { entries }
    }
}

/// Represents the current shell context/state.
#[derive(Debug, Clone)]
pub struct ShellContext {
    /// The last command that was executed
    pub last_command: Option<String>,
    /// Output from the last command (stdout/stderr)
    pub last_output: Option<String>,
    /// Exit code of the last command
    pub exit_code: Option<i32>,
    /// Current working directory
    pub cwd: String,
    /// Shell name (bash, zsh, fish)
    pub shell: String,
}

impl Default for ShellContext {
    /// Nothing known yet, in `/` under bash.
    fn default() -> (r: Self)
        ensures
            r.last_command is None,
            r.last_output is None,
            r.exit_code is None,
            r.cwd@ == "/"@,
            r.shell@ == "bash"@,
    {
        ShellContext {
            last_command: None,
            last_output: None,
            exit_code: None,
            cwd: string_of("/"),
            shell: string_of("bash"),
        }
    }
}

/// The part of a path after its last `/` (the whole path when it has none).
pub open spec fn after_last_slash(s: Seq<char>) -> Seq<char>
    decreases s.len(),
{
    if s.len() == 0 {
        s
    } else if s.last() == '/' {
        Seq::empty()
    } else {
        after_last_slash(s.drop_last()).push(s.last())
    }
}

impl ShellContext {
    /// Create a new ShellContext with minimal info.
    pub fn new(cwd: &str, shell: &str) -> (r: Self)
        ensures
            r.last_command is None,
            r.last_output is None,
            r.exit_code is None,
            r.cwd@ == cwd@,
            r.shell@ == shell@,
    {
        ShellContext {
            last_command: None,
            last_output: None,
            exit_code: None,
            cwd: string_of(cwd),
            shell: string_of(shell),
        }
    }

    /// Create a context from the process environment, given the current
    /// directory (if known) and the value of `SHELL` (if set): the directory
    /// defaults to `/`, the shell path to `/bin/bash`, and the shell name is the
    /// last component of the shell path.
    pub fn from_env_values(cwd: Option<&str>, shell_path: Option<&str>) -> (r: Self)
        ensures
            r.last_command is None,
            r.last_output is None,
            r.exit_code is None,
            r.cwd@ == (match cwd {
                Some(c) => c@,
                None => "/"@,
            }),
            r.shell@ == after_last_slash(
                match shell_path {
                    Some(p) => p@,
                    None => "/bin/bash"@,
                },
            ),
    {
        let dir = match cwd {
            Some(c) => c,
            None => "/",
        };
        let path = match shell_path {
            Some(p) => p,
            None => "/bin/bash",
        };
        let name = shell_name_of(path);
        ShellContext { last_command: None, last_output: None, exit_code: None, cwd: string_of(dir), shell: name }
    }
}

/// The last `/`-separated component of a shell path (`str::rsplit('/')`'s first item).
pub fn shell_name_of(path: &str) -> (r: String)
    ensures
        r@ == after_last_slash(path@),
{
    let v = crate::text::to_chars(path);
    let mut start = v.len();
    assert(v@.subrange(start as int, v@.len() as int) =~= Seq::<char>::empty());
    assert(v@.take(start as int) =~= v@);
    assert(after_last_slash(v@) =~= after_last_slash(v@.take(start as int)) + v@.subrange(start as int, v@.len() as int));
    while start > 0 && v[start - 1] != '/'
        invariant
            start <= v.len(),
            v@ == path@,
            forall|k: int| start <= k < v.len() ==> v@[k] != '/',
            after_last_slash(v@) == after_last_slash(v@.take(start as int)) + v@.subrange(start as int, v@.len() as int),
        decreases start,
    {
        let ghost t = v@.take(start as int);
        assert(t.drop_last() =~= v@.take(start - 1));
        assert(v@.subrange(start - 1, v@.len() as int) =~= seq![t.last()] + v@.subrange(start as int, v@.len() as int));
        assert(after_last_slash(t) == after_last_slash(t.drop_last()).push(t.last()));
        assert(after_last_slash(t.drop_last()).push(t.last()) + v@.subrange(start as int, v@.len() as int)
            =~= after_last_slash(t.drop_last()) + v@.subrange(start - 1, v@.len() as int));
        start = start - 1;
    }
    proof {
        let t = v@.take(start as int);
        if start > 0 {
            assert(t.last() == '/');
        }
        assert(after_last_slash(t) =~= Seq::<char>::empty());
        assert(after_last_slash(v@) =~= v@.subrange(start as int, v@.len() as int));
    }
    crate::text::from_chars(&v, start, v.len())
}

/// Configuration handed to plugins: the shell name and free-form settings.
#[derive(Debug)]
pub struct PluginConfig {
    pub shell_name: String,
    pub settings: StringMap,
}

impl Default for PluginConfig {
    /// The zsh shell with no settings.
    fn default() -> (r: Self)
        ensures
            r.shell_name@ == "zsh"@,
            r.settings@.len() == 0,
    {
        PluginConfig { shell_name: string_of("zsh"), settings: StringMap::new() }
    }
}

impl PluginConfig {
    /// An independent copy of the configuration.
    pub fn duplicate(&self) -> (r: Self)
        ensures
            r.shell_name@ == self.shell_name@,
            r.settings@ == self.settings@,
    {
        PluginConfig { shell_name: self.shell_name.clone(), settings: self.settings.duplicate() }
    }
}

/// Result of a command execution.
#[derive(Debug, Clone)]
pub struct CommandResult {
    pub success: bool,
    pub output: String,
    pub exit_code: i32,
}

} // verus!
