//! Where the daemon keeps its configuration.
use vstd::prelude::*;
use crate::config::Configuration;
use crate::keyed_map::KeyedMap;

verus! {

/// The file that holds the configuration.
pub const DEV_DEFAULT_FILE_PATH: &'static str = "./ziofa.json";

/// Configuration storage in the file system: a configuration is stored as
/// JSON in a file.
pub struct NormalFilesystem;

/// Why a configuration could not be loaded.
#[derive(Debug, Clone, Copy, PartialEq, Eq, Structural)]
pub enum StorageError {
    /// Nothing is stored under the path.
    NotFound,
}

/// Configuration storage in memory, by path.
pub struct MemoryConfigurationStorage {
    storage: KeyedMap<String, Configuration>,
}

impl MemoryConfigurationStorage {
    /// The configuration stored under each path.
    pub closed spec fn stored(&self) -> Map<Seq<char>, Configuration> {
        self.storage@
    }

    /// The storage is well formed.
    pub closed spec fn wf(&self) -> bool {
        self.storage.wf()
    }

    /// A storage that holds nothing.
    pub fn new() -> (s: Self)
        ensures
            s.wf(),
            s.stored() == Map::<Seq<char>, Configuration>::empty(),
    {
        MemoryConfigurationStorage { storage: KeyedMap::new() }
    }

    /// The configuration stored under `path`.
    pub fn load(&self, path: &str) -> (r: Result<&Configuration, StorageError>)
        requires
            self.wf(),
        ensures
            match r {
                Ok(c) => self.stored().contains_key(path@) && *c == self.stored()[path@],
                Err(e) => !self.stored().contains_key(path@) && e == StorageError::NotFound,
            },
    {
        match self.storage.get(&String::from_str(path)) {
            Some(c) => Ok(c),
            None => Err(StorageError::NotFound),
        }
    }

    /// Stores `config` under `path`, in place of what was there.
    pub fn save(&mut self, config: Configuration, path: &str)
        requires
            old(self).wf(),
        ensures
            final(self).wf(),
            final(self).stored() == old(self).stored().insert(path@, config),
    {
        self.storage.insert(String::from_str(path), config);
    }
}

/// A configuration saved under a path is what loading that path gives
/// back, and saving leaves what is stored under other paths as it was.
pub proof fn lemma_load_after_save(
    stored: Map<Seq<char>, Configuration>,
    path: Seq<char>,
    config: Configuration,
    other: Seq<char>,
)
    ensures
        stored.insert(path, config).contains_key(path),
        stored.insert(path, config)[path] == config,
        other != path ==> (stored.insert(path, config).contains_key(other) == stored.contains_key(
            other,
        ) && (stored.contains_key(other) ==> stored.insert(path, config)[other] == stored[other])),
{
}

} // verus!
