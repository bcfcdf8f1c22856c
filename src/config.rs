//! The project configuration: named scripts and per-target install entries.
use vstd::prelude::*;
use vstd::string::*;

use crate::text::{eq_ignore_case, lowercase_of, str_eq};

verus! {

/// The file formats a project configuration can be written in.
#[derive(Debug, Clone, Copy, PartialEq, Eq, Structural)]
pub enum ConfigFormat {
    Yaml,
    Toml,
}

/// The configuration files looked for, in order, with their formats.
pub fn config_candidates() -> (r: Vec<(&'static str, ConfigFormat)>)
    ensures
        r@.len() == 3,
        r@[0].0@ == "qbit.yml"@ && r@[0].1 == ConfigFormat::Yaml,
        r@[1].0@ == "qbit.yaml"@ && r@[1].1 == ConfigFormat::Yaml,
        r@[2].0@ == "qbit.toml"@ && r@[2].1 == ConfigFormat::Toml,
{
    vec![("qbit.yml", ConfigFormat::Yaml), ("qbit.yaml", ConfigFormat::Yaml), (
        "qbit.toml",
        ConfigFormat::Toml,
    )]
}

/// A script: one shell command or several, run in order.
#[derive(Debug, Clone)]
pub enum CommandList {
    Single(String),
    Multiple(Vec<String>),
}

impl CommandList {
    pub open spec fn spec_commands(&self) -> Seq<Seq<char>> {
        match self {
            CommandList::Single(c) => seq![c@],
            CommandList::Multiple(cs) => cs@.map_values(|c: String| c@),
        }
    }

    /// The commands, in order.
    pub fn commands(&self) -> (r: Vec<String>)
        ensures
            r@.map_values(|c: String| c@) == self.spec_commands(),
    {
        match self {
            CommandList::Single(cmd) => {
                let r = vec![cmd.clone()];
                proof {
                    assert(r@.map_values(|c: String| c@) =~= self.spec_commands());
                }
                r
            },
            CommandList::Multiple(cmds) => {
                let mut r: Vec<String> = Vec::new();
                let mut i: usize = 0;
                while i < cmds.len()
                    invariant
                        i <= cmds@.len(),
                        r@.map_values(|c: String| c@) == cmds@.subrange(0, i as int).map_values(
                            |c: String| c@,
                        ),
                    decreases cmds@.len() - i,
                {
                    let ghost before = r@;
                    let c = cmds[i].clone();
                    r.push(c);
                    proof {
                        assert(r@ == before.push(c));
                        assert(c@ == cmds@[i as int]@);
                        assert(cmds@.subrange(0, i + 1) =~= cmds@.subrange(0, i as int).push(
                            cmds@[i as int],
                        ));
                        assert(r@.map_values(|c: String| c@) =~= before.map_values(|c: String| c@).push(
                            c@,
                        ));
                        assert(cmds@.subrange(0, i + 1).map_values(|c: String| c@) =~= cmds@.subrange(
                            0,
                            i as int,
                        ).map_values(|c: String| c@).push(c@));
                        assert(r@.map_values(|c: String| c@) =~= cmds@.subrange(
                            0,
                            i + 1,
                        ).map_values(|c: String| c@));
                    }
                    i = i + 1;
                }
                proof {
                    assert(cmds@.subrange(0, cmds@.len() as int) =~= cmds@);
                }
                r
            },
        }
    }
}

/// An install entry: a bare string names one identifier for every manager;
/// the detailed form gives a version and identifiers keyed by manager alias
/// (or `default`).
#[derive(Debug, Clone)]
pub enum InstallSpec {
    Identifier(String),
    Detailed { version: Option<String>, identifiers: Vec<(String, String)> },
}

/// Index of the first entry whose key is `key`.
pub open spec fn key_index<V>(entries: Seq<(String, V)>, key: Seq<char>) -> Option<int>
    decreases entries.len(),
{
    if entries.len() == 0 {
        None
    } else if entries[0].0@ == key {
        Some(0)
    } else {
        match key_index(entries.drop_first(), key) {
            Some(i) => Some(i + 1),
            None => None,
        }
    }
}

/// Index of the first entry whose key is `key` up to case (full Unicode
/// lower-casing).
pub open spec fn key_index_ignoring_case<V>(entries: Seq<(String, V)>, key: Seq<char>) -> Option<
    int,
>
    decreases entries.len(),
{
    if entries.len() == 0 {
        None
    } else if lowercase_of(entries[0].0@) == lowercase_of(key) {
        Some(0)
    } else {
        match key_index_ignoring_case(entries.drop_first(), key) {
            Some(i) => Some(i + 1),
            None => None,
        }
    }
}

proof fn lemma_key_index<V>(entries: Seq<(String, V)>, key: Seq<char>)
    ensures
        match key_index(entries, key) {
            Some(i) => 0 <= i < entries.len() && entries[i].0@ == key && forall|j: int|
                0 <= j < i ==> (#[trigger] entries[j]).0@ != key,
            None => forall|j: int| 0 <= j < entries.len() ==> (#[trigger] entries[j]).0@ != key,
        },
    decreases entries.len(),
{
    if entries.len() > 0 && entries[0].0@ != key {
        lemma_key_index(entries.drop_first(), key);
        assert forall|j: int| 1 <= j < entries.len() implies entries[j] == entries.drop_first()[j
            - 1] by {}
    }
}

proof fn lemma_key_index_ignoring_case<V>(entries: Seq<(String, V)>, key: Seq<char>)
    ensures
        match key_index_ignoring_case(entries, key) {
            Some(i) => 0 <= i < entries.len() && lowercase_of(entries[i].0@) == lowercase_of(key)
                && forall|j: int|
                0 <= j < i ==> lowercase_of((#[trigger] entries[j]).0@) != lowercase_of(key),
            None => forall|j: int|
                0 <= j < entries.len() ==> lowercase_of((#[trigger] entries[j]).0@) != lowercase_of(
                    key,
                ),
        },
    decreases entries.len(),
{
    if entries.len() > 0 && lowercase_of(entries[0].0@) != lowercase_of(key) {
        lemma_key_index_ignoring_case(entries.drop_first(), key);
        assert forall|j: int| 1 <= j < entries.len() implies entries[j] == entries.drop_first()[j
            - 1] by {}
    }
}

/// Position of the first entry keyed exactly `key`.
fn find_key<V>(entries: &Vec<(String, V)>, key: &str) -> (r: Option<usize>)
    ensures
        r is None <==> key_index(entries@, key@) is None,
        r matches Some(i) ==> (i < entries@.len() && key_index(entries@, key@) == Some(i as int)),
{
    proof {
        lemma_key_index(entries@, key@);
    }
    let mut i: usize = 0;
    while i < entries.len()
        invariant
            i <= entries@.len(),
            forall|j: int| 0 <= j < i ==> (#[trigger] entries@[j]).0@ != key@,
            match key_index(entries@, key@) {
                Some(k) => i <= k,
                None => true,
            },
        decreases entries@.len() - i,
    {
        if str_eq(entries[i].0.as_str(), key) {
            proof {
                lemma_key_index(entries@, key@);
            }
            return Some(i);
        }
        proof {
            lemma_key_index(entries@, key@);
        }
        i = i + 1;
    }
    proof {
        lemma_key_index(entries@, key@);
    }
    None
}

/// Position of the first entry keyed `key` up to case.
fn find_key_ignoring_case<V>(entries: &Vec<(String, V)>, key: &str) -> (r: Option<usize>)
    ensures
        r is None <==> key_index_ignoring_case(entries@, key@) is None,
        r matches Some(i) ==> (i < entries@.len() && key_index_ignoring_case(entries@, key@) == Some(
            i as int,
        )),
{
    proof {
        lemma_key_index_ignoring_case(entries@, key@);
    }
    let mut i: usize = 0;
    while i < entries.len()
        invariant
            i <= entries@.len(),
            forall|j: int|
                0 <= j < i ==> lowercase_of((#[trigger] entries@[j]).0@) != lowercase_of(key@),
            match key_index_ignoring_case(entries@, key@) {
                Some(k) => i <= k,
                None => true,
            },
        decreases entries@.len() - i,
    {
        if eq_ignore_case(entries[i].0.as_str(), key) {
            proof {
                lemma_key_index_ignoring_case(entries@, key@);
            }
            return Some(i);
        }
        proof {
            lemma_key_index_ignoring_case(entries@, key@);
        }
        i = i + 1;
    }
    proof {
        lemma_key_index_ignoring_case(entries@, key@);
    }
    None
}

impl InstallSpec {
    pub open spec fn spec_version(&self) -> Option<Seq<char>> {
        match self {
            InstallSpec::Identifier(_) => None,
            InstallSpec::Detailed { version, .. } => match version {
                Some(v) => Some(v@),
                None => None,
            },
        }
    }

    pub open spec fn spec_identifier(&self, key: Seq<char>) -> Option<Seq<char>> {
        match self {
            InstallSpec::Identifier(_) => None,
            InstallSpec::Detailed { identifiers, .. } => match key_index(identifiers@, key) {
                Some(i) => Some(identifiers@[i].1@),
                None => None,
            },
        }
    }

    /// The configured version, if any.
    pub fn version(&self) -> (r: Option<&str>)
        ensures
            match r {
                Some(v) => self.spec_version() == Some(v@),
                None => self.spec_version() is None,
            },
    {
        match self {
            InstallSpec::Identifier(_) => None,
            InstallSpec::Detailed { version, .. } => match version {
                Some(v) => Some(v.as_str()),
                None => None,
            },
        }
    }

    /// The identifier configured under `manager` in the detailed form.
    pub fn identifier(&self, manager: &str) -> (r: Option<&str>)
        ensures
            match r {
                Some(v) => self.spec_identifier(manager@) == Some(v@),
                None => self.spec_identifier(manager@) is None,
            },
    {
        match self {
            InstallSpec::Identifier(_) => None,
            InstallSpec::Detailed { identifiers, .. } => match find_key(identifiers, manager) {
                Some(i) => Some(identifiers[i].1.as_str()),
                None => None,
            },
        }
    }
}

/// Scripts and install entries, each keyed by name.
#[derive(Debug, Clone)]
pub struct ProjectConfig {
    pub scripts: Vec<(String, CommandList)>,
    pub install: Vec<(String, InstallSpec)>,
}

/// No key appears twice among `entries`.
pub open spec fn distinct_keys<V>(entries: Seq<(String, V)>) -> bool {
    forall|i: int, j: int|
        0 <= i < j < entries.len() ==> (#[trigger] entries[i]).0@ != (#[trigger] entries[j]).0@
}

/// Whether every key of `entries` is different from the others.
fn keys_distinct<V>(entries: &Vec<(String, V)>) -> (r: bool)
    ensures
        r == distinct_keys(entries@),
{
    let n = entries.len();
    let mut i: usize = 0;
    while i < n
        invariant
            n == entries@.len(),
            i <= n,
            forall|a: int, b: int|
                0 <= a < i && a < b < n ==> (#[trigger] entries@[a]).0@ != (#[trigger] entries@[b]).0@,
        decreases n - i,
    {
        let mut j: usize = i + 1;
        while j < n
            invariant
                n == entries@.len(),
                i < n,
                i < j <= n,
                forall|a: int, b: int|
                    0 <= a < i && a < b < n ==> (#[trigger] entries@[a]).0@ != (#[trigger] entries@[b]).0@,
                forall|b: int| i < b < j ==> entries@[i as int].0@ != (#[trigger] entries@[b]).0@,
            decreases n - j,
        {
            if str_eq(entries[i].0.as_str(), entries[j].0.as_str()) {
                return false;
            }
            j = j + 1;
        }
        i = i + 1;
    }
    true
}

/// No two keys among `entries` are equal up to case.
pub open spec fn distinct_keys_ignoring_case<V>(entries: Seq<(String, V)>) -> bool {
    forall|i: int, j: int|
        0 <= i < j < entries.len() ==> lowercase_of((#[trigger] entries[i]).0@) != lowercase_of(
            (#[trigger] entries[j]).0@,
        )
}

/// Whether no two keys of `entries` are equal up to case.
fn keys_distinct_ignoring_case<V>(entries: &Vec<(String, V)>) -> (r: bool)
    ensures
        r == distinct_keys_ignoring_case(entries@),
{
    let n = entries.len();
    let mut i: usize = 0;
    while i < n
        invariant
            n == entries@.len(),
            i <= n,
            forall|a: int, b: int|
                0 <= a < i && a < b < n ==> lowercase_of((#[trigger] entries@[a]).0@)
                    != lowercase_of((#[trigger] entries@[b]).0@),
        decreases n - i,
    {
        let mut j: usize = i + 1;
        while j < n
            invariant
                n == entries@.len(),
                i < n,
                i < j <= n,
                forall|a: int, b: int|
                    0 <= a < i && a < b < n ==> lowercase_of((#[trigger] entries@[a]).0@)
                        != lowercase_of((#[trigger] entries@[b]).0@),
                forall|b: int|
                    i < b < j ==> lowercase_of(entries@[i as int].0@) != lowercase_of(
                        (#[trigger] entries@[b]).0@,
                    ),
            decreases n - j,
        {
            if eq_ignore_case(entries[i].0.as_str(), entries[j].0.as_str()) {
                return false;
            }
            j = j + 1;
        }
        i = i + 1;
    }
    true
}

impl InstallSpec {
    /// The identifier keys of the detailed form are distinct.
    pub open spec fn wf(&self) -> bool {
        match self {
            InstallSpec::Identifier(_) => true,
            InstallSpec::Detailed { identifiers, .. } => distinct_keys(identifiers@),
        }
    }

    fn check_wf(&self) -> (r: bool)
        ensures
            r == self.wf(),
    {
        match self {
            InstallSpec::Identifier(_) => true,
            InstallSpec::Detailed { identifiers, .. } => keys_distinct(identifiers),
        }
    }
}

impl ProjectConfig {
    /// Script names are distinct, install names are distinct up to case (they
    /// are looked up ignoring case), and each install entry is well formed.
    pub open spec fn wf(&self) -> bool {
        &&& distinct_keys(self.scripts@)
        &&& distinct_keys_ignoring_case(self.install@)
        &&& forall|i: int| 0 <= i < self.install@.len() ==> (#[trigger] self.install@[i]).1.wf()
    }

    /// A configuration of these entries; `None` when a key repeats.
    pub fn new(scripts: Vec<(String, CommandList)>, install: Vec<(String, InstallSpec)>) -> (r:
        Option<ProjectConfig>)
        ensures
            r is Some <==> (ProjectConfig { scripts, install }).wf(),
            r matches Some(c) ==> (c.scripts == scripts && c.install == install),
    {
        if !keys_distinct(&scripts) || !keys_distinct_ignoring_case(&install) {
            return None;
        }
        let mut i: usize = 0;
        while i < install.len()
            invariant
                i <= install@.len(),
                forall|k: int| 0 <= k < i ==> (#[trigger] install@[k]).1.wf(),
            decreases install@.len() - i,
        {
            if !install[i].1.check_wf() {
                return None;
            }
            i = i + 1;
        }
        Some(ProjectConfig { scripts, install })
    }
}

/// A configuration together with the file it was read from.
#[derive(Debug, Clone)]
pub struct LoadedProjectConfig {
    pub path: String,
    pub data: ProjectConfig,
}

impl LoadedProjectConfig {
    /// The script named exactly `name`.
    pub fn script(&self, name: &str) -> (r: Option<&CommandList>)
        ensures
            match key_index(self.data.scripts@, name@) {
                Some(i) => r matches Some(c) && *c == self.data.scripts@[i].1,
                None => r is None,
            },
    {
        match find_key(&self.data.scripts, name) {
            Some(i) => Some(&self.data.scripts[i].1),
            None => None,
        }
    }

    /// The install entry for `name`, matched up to case, with the key
    /// it is written under.
    pub fn install_target(&self, name: &str) -> (r: Option<&(String, InstallSpec)>)
        ensures
            match key_index_ignoring_case(self.data.install@, name@) {
                Some(i) => r matches Some(e) && *e == self.data.install@[i],
                None => r is None,
            },
            self.data.wf() ==> (r matches Some(e) ==> forall|j: int|
                0 <= j < self.data.install@.len() && lowercase_of(
                    (#[trigger] self.data.install@[j]).0@,
                ) == lowercase_of(name@) ==> self.data.install@[j] == *e),
    {
        proof {
            lemma_key_index_ignoring_case(self.data.install@, name@);
            if let Some(i) = key_index_ignoring_case(self.data.install@, name@) {
                if self.data.wf() {
                    assert forall|j: int|
                        0 <= j < self.data.install@.len() && lowercase_of(
                            (#[trigger] self.data.install@[j]).0@,
                        ) == lowercase_of(name@) implies j == i by {
                        if j < i {
                            assert(lowercase_of(self.data.install@[j].0@) != lowercase_of(
                                self.data.install@[i].0@,
                            ));
                        } else if i < j {
                            assert(lowercase_of(self.data.install@[i].0@) != lowercase_of(
                                self.data.install@[j].0@,
                            ));
                        }
                    }
                }
            }
        }
        match find_key_ignoring_case(&self.data.install, name) {
            Some(i) => Some(&self.data.install[i]),
            None => None,
        }
    }
}

/// Where the project lives.
#[derive(Debug, Clone)]
pub struct ProjectContext {
    pub root: String,
}

} // verus!
