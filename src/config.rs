use vstd::prelude::*;

use crate::error::StoreError;
use crate::order::{lemma_name_lt_transitive, name_less, name_lt, same_name};

verus! {

/// One directory server's connection parameters, under a user-chosen name.
#[derive(Clone, Debug)]
pub struct ServerConfig {
    pub host: String,
    pub name: String,
    pub password: String,
    pub port: u32,
    pub search_base: String,
    pub user: String,
}

/// The persisted store: every profile, sorted by name, and the active one.
#[derive(Debug)]
pub struct Config {
    pub current: String,
    pub servers: Vec<ServerConfig>,
}

/// The value of `current` while the store holds no profile.
pub open spec fn sentinel() -> Seq<char> {
    seq!['n', 'o', 'n', 'e']
}

/// Whether some profile of `servers` is named `name`.
pub open spec fn has_name(servers: Seq<ServerConfig>, name: Seq<char>) -> bool {
    exists|i: int| 0 <= i < servers.len() && #[trigger] servers[i].name@ == name
}

/// Whether the names of `servers` ascend strictly (so they are also unique).
pub open spec fn sorted_by_name(servers: Seq<ServerConfig>) -> bool {
    forall|i: int, j: int|
        0 <= i < j < servers.len() ==> name_lt(#[trigger] servers[i].name@, #[trigger] servers[j].name@)
}

/// Whether `current` points as it should: at a profile, or at the sentinel
/// when there is none. A store read from disk may point nowhere; `current()`
/// then reports it, and every change of the store points it again.
pub open spec fn pointer_ok(current: Seq<char>, servers: Seq<ServerConfig>) -> bool {
    &&& (servers.len() == 0 ==> current == sentinel())
    &&& (servers.len() > 0 ==> has_name(servers, current))
}

/// What reading the store file found.
#[derive(Debug)]
pub enum StoredFile {
    /// There is no store file.
    Missing,
    /// The file's text does not have the store's shape.
    Unparsable,
    /// The file's text gave these parts.
    Parsed(String, Vec<ServerConfig>),
}

/// What `Config::from_parts` gives for these parts.
pub open spec fn parts_result(current: String, servers: Vec<ServerConfig>) -> Result<Config, StoreError> {
    if sorted_by_name(servers@) {
        Ok(Config { current, servers })
    } else {
        Err(StoreError::CorruptConfig)
    }
}

/// What `Config::load` gives for what reading the store file found.
pub open spec fn load_result(file: StoredFile) -> Result<Config, StoreError> {
    match file {
        StoredFile::Missing => Err(StoreError::NotConfigured),
        StoredFile::Unparsable => Err(StoreError::CorruptConfig),
        StoredFile::Parsed(current, servers) => parts_result(current, servers),
    }
}

impl ServerConfig {
    /// A field-for-field copy.
    pub fn duplicate(&self) -> (r: ServerConfig)
        ensures
            r == *self,
    {
        ServerConfig {
            host: self.host.clone(),
            name: self.name.clone(),
            password: self.password.clone(),
            port: self.port,
            search_base: self.search_base.clone(),
            user: self.user.clone(),
        }
    }
}

impl Config {
    /// Names sorted, and so unique.
    pub open spec fn wf(&self) -> bool {
        sorted_by_name(self.servers@)
    }

    /// Whether `current` points at a profile, or at the sentinel.
    pub open spec fn points_well(&self) -> bool {
        pointer_ok(self.current@, self.servers@)
    }

    /// An empty store: no profile, and the sentinel as `current`.
    pub fn new() -> (r: Config)
        ensures
            r.wf(),
            r.points_well(),
            r.current@ == sentinel(),
            r.servers@.len() == 0,
    {
        let current = "none".to_owned();
        proof {
            reveal_strlit("none");
        }
        assert(current@ =~= sentinel());
        Config { current, servers: Vec::new() }
    }

    /// Builds a store from parts read back from disk: `CorruptConfig` unless
    /// the names are sorted and unique, and the parts unchanged otherwise.
    /// Where `current` names no profile, `current()` says so.
    pub fn from_parts(current: String, servers: Vec<ServerConfig>) -> (r: Result<Config, StoreError>)
        ensures
            r == parts_result(current, servers),
    {
        let n = servers.len();
        let mut i: usize = 1;
        while i < n
            invariant
                n == servers@.len(),
                1 <= i,
                forall|a: int, b: int|
                    0 <= a < b < i && b < n ==> name_lt(
                        #[trigger] servers@[a].name@,
                        #[trigger] servers@[b].name@,
                    ),
            decreases n - i,
        {
            if !name_less(servers[i - 1].name.as_str(), servers[i].name.as_str()) {
                assert(!sorted_by_name(servers@));
                return Err(StoreError::CorruptConfig);
            }
            proof {
                assert forall|a: int, b: int|
                    0 <= a < b < i + 1 && b < n implies name_lt(
                        #[trigger] servers@[a].name@,
                        #[trigger] servers@[b].name@,
                    ) by {
                    if b == i && a < i - 1 {
                        lemma_name_lt_transitive(
                            servers@[a].name@,
                            servers@[i - 1].name@,
                            servers@[b].name@,
                        );
                    }
                }
            }
            i = i + 1;
        }
        assert(sorted_by_name(servers@));
        Ok(Config { current, servers })
    }

    /// The store that reading its file found: `NotConfigured` without a
    /// file, `CorruptConfig` where the text is malformed or the names are not
    /// sorted and unique.
    pub fn load(file: StoredFile) -> (r: Result<Config, StoreError>)
        ensures
            r == load_result(file),
    {
        match file {
            StoredFile::Missing => Err(StoreError::NotConfigured),
            StoredFile::Unparsable => Err(StoreError::CorruptConfig),
            StoredFile::Parsed(current, servers) => Self::from_parts(current, servers),
        }
    }

    /// The index of the profile named `name`, if there is one.
    pub fn find(servers: &Vec<ServerConfig>, name: &str) -> (r: Option<usize>)
        ensures
            r is None <==> !has_name(servers@, name@),
            r matches Some(i) ==> i < servers@.len() && servers@[i as int].name@ == name@,
    {
        let mut i: usize = 0;
        while i < servers.len()
            invariant
                i <= servers@.len(),
                forall|k: int| 0 <= k < i ==> #[trigger] servers@[k].name@ != name@,
            decreases servers@.len() - i,
        {
            if same_name(servers[i].name.as_str(), name) {
                return Some(i);
            }
            i = i + 1;
        }
        None
    }

    /// Whether a profile is named `name`.
    pub fn contains(&self, name: &str) -> (r: bool)
        ensures
            r == has_name(self.servers@, name@),
    {
        Self::find(&self.servers, name).is_some()
    }

    /// The active profile: a copy of the profile that `current` names, or
    /// `NoActiveProfile` where none does.
    pub fn current(&self) -> (r: Result<ServerConfig, StoreError>)
        ensures
            r is Ok <==> has_name(self.servers@, self.current@),
            r matches Ok(p) ==> p.name@ == self.current@ && self.servers@.contains(p),
            r matches Err(e) ==> e == StoreError::NoActiveProfile,
    {
        match Self::find(&self.servers, self.current.as_str()) {
            Some(i) => {
                let p = self.servers[i].duplicate();
                assert(self.servers@[i as int] == p);
                Ok(p)
            },
            None => Err(StoreError::NoActiveProfile),
        }
    }
}

/// A well-formed store, written as its parts and read back, is the same
/// store: loading the parts gives it back, field for field.
pub proof fn lemma_store_round_trip(store: Config)
    requires
        store.wf(),
    ensures
        load_result(StoredFile::Parsed(store.current, store.servers)) == Ok::<Config, StoreError>(
            store,
        ),
{
}

} // verus!
