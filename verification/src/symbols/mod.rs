//! Symbols of the files that processes map: finding the files, reading
//! their symbols and keeping them per file.
use vstd::prelude::*;
use vstd::utf8::encode_utf8;
use crate::filters::key_set;
use crate::keyed_map::{KeyedMap, MapKey};
use crate::symbols::symbolizer::{entries_view, spec_u64_from_hex_str, u64_from_hex_str, ObjectFileError};

pub mod actors;
pub mod index;
pub mod symbolizer;
pub mod walking;

verus! {

/// Whether the bytes `b` end with the bytes `suffix`.
pub open spec fn bytes_end_with(b: Seq<u8>, suffix: Seq<u8>) -> bool {
    suffix.len() <= b.len() && b.subrange(b.len() - suffix.len(), b.len() as int) == suffix
}

/// `str::ends_with` with a text pattern: the UTF-8 bytes of `s` end with
/// those of `suffix`.
pub open spec fn spec_ends_with(s: Seq<char>, suffix: Seq<char>) -> bool {
    bytes_end_with(encode_utf8(s), encode_utf8(suffix))
}

/// Whether `s` ends with `suffix`.
pub fn ends_with(s: &str, suffix: &str) -> (b: bool)
    ensures
        b == spec_ends_with(s@, suffix@),
{
    let a = s.as_bytes();
    let t = suffix.as_bytes();
    if t.len() > a.len() {
        return false;
    }
    let off = a.len() - t.len();
    let mut i: usize = 0;
    while i < t.len()
        invariant
            a@ == encode_utf8(s@),
            t@ == encode_utf8(suffix@),
            t@.len() <= a@.len(),
            off == a@.len() - t@.len(),
            off + t@.len() == a.len(),
            i <= t@.len(),
            forall|j: int| 0 <= j < i ==> a@[off + j] == t@[j],
        decreases t@.len() - i,
    {
        if a[off + i] != t[i] {
            proof {
                assert(a@.subrange(off as int, a@.len() as int)[i as int] != t@[i as int]);
            }
            return false;
        }
        i = i + 1;
    }
    proof {
        assert(a@.subrange(off as int, a@.len() as int) =~= t@);
    }
    true
}

/// Why symbols could not be listed or read.
#[derive(Debug)]
pub enum SymbolError {
    /// Reading or running something failed; the text says what.
    IOError(String),
    /// A blocking task could not be joined; the text says why.
    JoinError(String),
    /// The memory maps of a process could not be read; the text says why.
    ProcError(String),
    /// The mapped files of the process are not known.
    SymbolPathsNotLoaded { pid: u32 },
    /// The symbols of the file are not known.
    SymbolsNotLoaded { pid: u32, path: String },
    /// A line of oatdump's output is no JSON symbol; the text says why.
    SerdeError(String),
    /// The file is not among the mapped files that were listed.
    SymbolFileNotAvailable { path: String },
    /// The object file could not be read.
    ReadError(ObjectFileError),
}

/// The mapped files, among `paths`, whose name ends with `extension`.
pub open spec fn selected_paths(paths: Seq<String>, extension: Seq<char>) -> Set<Seq<char>> {
    Set::new(
        |x: Seq<char>|
            exists|i: int|
                0 <= i < paths.len() && #[trigger] paths[i]@ == x && spec_ends_with(x, extension),
    )
}

/// Symbol tables that are empty for each of `paths`.
pub open spec fn empty_tables(paths: Set<Seq<char>>) -> Map<Seq<char>, Map<Seq<char>, u64>> {
    Map::new(|p: Seq<char>| paths.contains(p), |p: Seq<char>| Map::<Seq<char>, u64>::empty())
}

/// The symbol table that the dynamic symbols `entries` of a shared object
/// give: each symbol at an address other than zero, by name, a later one
/// with the same name winning.
pub open spec fn spec_so_table(entries: Seq<(Option<Seq<char>>, u64)>) -> Map<Seq<char>, u64>
    decreases entries.len(),
{
    if entries.len() == 0 {
        Map::empty()
    } else {
        let m = spec_so_table(entries.drop_last());
        match entries.last().0 {
            Some(n) => if entries.last().1 != 0 {
                m.insert(n, entries.last().1)
            } else {
                m
            },
            None => m,
        }
    }
}

/// Whether every symbol in `entries` has a name that could be read.
pub open spec fn all_named(entries: Seq<(Option<Seq<char>>, u64)>) -> bool {
    forall|i: int| 0 <= i < entries.len() ==> #[trigger] entries[i].0 is Some
}

/// The value of an offset text that oatdump wrote.
pub open spec fn oat_offset_value(offset: Seq<char>) -> u64 {
    match spec_u64_from_hex_str(encode_utf8(offset)) {
        Ok(v) => v,
        Err(_) => 0,
    }
}

/// Whether each line of oatdump's output that is read, that is each one
/// before the first failure, holds a readable offset that the section offset
/// does not push past `u64::MAX`.
pub open spec fn oat_lines_valid(lines: Seq<Result<(String, String), SymbolError>>, section: u64) -> bool {
    forall|i: int|
        0 <= i < lines.len() && (forall|j: int| 0 <= j < i ==> #[trigger] lines[j] is Ok)
            && #[trigger] lines[i] is Ok ==> {
            let offset = lines[i]->Ok_0.1@;
            &&& spec_u64_from_hex_str(encode_utf8(offset)) is Ok
            &&& oat_offset_value(offset) == 0 || oat_offset_value(offset) + section <= u64::MAX
        }
}

/// The symbol table after reading the lines of oatdump's output in order,
/// and how the reading ended: at the first failure, with the symbols read
/// before it kept.
pub open spec fn oat_apply(
    table: Map<Seq<char>, u64>,
    lines: Seq<Result<(String, String), SymbolError>>,
    section: u64,
) -> (Map<Seq<char>, u64>, Result<(), SymbolError>)
    decreases lines.len(),
{
    if lines.len() == 0 {
        (table, Ok(()))
    } else {
        match lines[0] {
            Err(e) => (table, Err(e)),
            Ok((method, offset)) => {
                let v = oat_offset_value(offset@);
                let next = if v == 0 {
                    table
                } else {
                    table.insert(method@, (v + section) as u64)
                };
                oat_apply(next, lines.drop_first(), section)
            },
        }
    }
}

/// Which loader the symbols of a file need.
#[derive(Debug, Clone, Copy, PartialEq, Eq, Structural)]
pub enum SymbolFileKind {
    /// An `.odex` file, read by oatdump.
    Oat,
    /// A shared object, read from its dynamic symbols.
    So,
    /// Any other file: nothing is read.
    Other,
}

/// The loader for a path: `.odex` first, then `.so`.
pub open spec fn spec_symbol_file_kind(path: Seq<char>) -> SymbolFileKind {
    if spec_ends_with(path, ".odex"@) {
        SymbolFileKind::Oat
    } else if spec_ends_with(path, ".so"@) {
        SymbolFileKind::So
    } else {
        SymbolFileKind::Other
    }
}

/// The loader that the symbols of `path` need.
pub fn symbol_file_kind(path: &str) -> (k: SymbolFileKind)
    ensures
        k == spec_symbol_file_kind(path@),
{
    if ends_with(path, ".odex") {
        SymbolFileKind::Oat
    } else if ends_with(path, ".so") {
        SymbolFileKind::So
    } else {
        SymbolFileKind::Other
    }
}

/// The mapped files of each process, and the symbols of each file.
pub struct SymbolHandler {
    /// maps pid to the files it maps
    files: KeyedMap<u32, Vec<String>>,
    /// maps a file path to its symbols, by name
    symbols: KeyedMap<String, KeyedMap<String, u64>>,
}

impl SymbolHandler {
    /// The tables are well formed and each list of files names each file once.
    pub closed spec fn wf(&self) -> bool {
        &&& self.files.wf()
        &&& self.symbols.wf()
        &&& forall|p: Seq<char>| #[trigger] self.symbols@.contains_key(p) ==> self.symbols@[p].wf()
        &&& forall|pid: u32| #[trigger]
            self.files@.contains_key(pid) ==> distinct_paths(self.files@[pid]@)
    }

    /// The files that each listed process maps.
    pub closed spec fn files(&self) -> Map<u32, Set<Seq<char>>> {
        Map::new(|pid: u32| self.files@.contains_key(pid), |pid: u32| key_set(self.files@[pid]@))
    }

    /// The symbols of each listed file.
    pub closed spec fn tables(&self) -> Map<Seq<char>, Map<Seq<char>, u64>> {
        Map::new(|p: Seq<char>| self.symbols@.contains_key(p), |p: Seq<char>| self.symbols@[p]@)
    }

    /// A handler that knows no process and no file.
    pub fn new() -> (h: Self)
        ensures
            h.wf(),
            h.files() == Map::<u32, Set<Seq<char>>>::empty(),
            h.tables() == Map::<Seq<char>, Map<Seq<char>, u64>>::empty(),
    {
        let h = SymbolHandler { files: KeyedMap::new(), symbols: KeyedMap::new() };
        assert(h.files() =~= Map::<u32, Set<Seq<char>>>::empty());
        assert(h.tables() =~= Map::<Seq<char>, Map<Seq<char>, u64>>::empty());
        h
    }
}

proof fn lemma_selected_step(paths: Seq<String>, extension: Seq<char>, i: int)
    requires
        0 <= i < paths.len(),
    ensures
        selected_paths(paths.take(i + 1), extension) == (if spec_ends_with(paths[i]@, extension) {
            selected_paths(paths.take(i), extension).insert(paths[i]@)
        } else {
            selected_paths(paths.take(i), extension)
        }),
{
    let a = selected_paths(paths.take(i + 1), extension);
    let b = if spec_ends_with(paths[i]@, extension) {
        selected_paths(paths.take(i), extension).insert(paths[i]@)
    } else {
        selected_paths(paths.take(i), extension)
    };
    assert forall|x: Seq<char>| a.contains(x) == b.contains(x) by {
        if a.contains(x) {
            let j = choose|j: int|
                0 <= j < i + 1 && #[trigger] paths.take(i + 1)[j]@ == x && spec_ends_with(x, extension);
            if j < i {
                assert(paths.take(i)[j]@ == x);
            }
        }
        if selected_paths(paths.take(i), extension).contains(x) {
            let j = choose|j: int|
                0 <= j < i && #[trigger] paths.take(i)[j]@ == x && spec_ends_with(x, extension);
            assert(paths.take(i + 1)[j]@ == x);
        }
        if x == paths[i]@ && spec_ends_with(x, extension) {
            assert(paths.take(i + 1)[i]@ == x);
        }
    }
    assert(a =~= b);
}

impl SymbolHandler {
    /// Lists the files of process `pid` whose name ends with `extension`,
    /// from the paths of its memory maps, unless they are listed already.
    /// Each listed file gets an empty symbol table. Maps that could not be
    /// read leave the process unlisted, so that a later call reads again.
    fn load_map_paths(&mut self, pid: u32, extension: &str, maps: Result<Vec<String>, String>) -> (r:
        Result<(), SymbolError>)
        requires
            old(self).wf(),
        ensures
            final(self).wf(),
            r is Ok ==> final(self).files().contains_key(pid),
            old(self).files().contains_key(pid) ==> r is Ok && final(self).files() == old(
                self,
            ).files() && final(self).tables() == old(self).tables(),
            !old(self).files().contains_key(pid) ==> (match maps {
                Err(msg) => r == Err::<(), SymbolError>(SymbolError::ProcError(msg))
                    && final(self).files() == old(self).files()
                    && final(self).tables() == old(self).tables(),
                Ok(paths) => r is Ok && final(self).files() == old(self).files().insert(
                    pid,
                    selected_paths(paths@, extension@),
                ) && final(self).tables() == old(self).tables().union_prefer_right(
                    empty_tables(selected_paths(paths@, extension@)),
                ),
            }),
    {
        if self.files.contains_key(&pid) {
            return Ok(());
        }
        match maps {
            Err(msg) => Err(SymbolError::ProcError(msg)),
            Ok(paths) => {
                let mut sel: Vec<String> = Vec::new();
                let mut i: usize = 0;
                proof {
                    assert(selected_paths(paths@.take(0), extension@) =~= Set::<Seq<char>>::empty());
                    assert(key_set(sel@) =~= Set::<Seq<char>>::empty());
                    assert(old(self).tables().union_prefer_right(empty_tables(Set::empty()))
                        =~= old(self).tables());
                }
                while i < paths.len()
                    invariant
                        i <= paths@.len(),
                        self.files == old(self).files,
                        self.symbols.wf(),
                        forall|p: Seq<char>| #[trigger]
                            self.symbols@.contains_key(p) ==> self.symbols@[p].wf(),
                        distinct_paths(sel@),
                        key_set(sel@) == selected_paths(paths@.take(i as int), extension@),
                        self.tables() == old(self).tables().union_prefer_right(
                            empty_tables(selected_paths(paths@.take(i as int), extension@)),
                        ),
                    decreases paths@.len() - i,
                {
                    let p = &paths[i];
                    proof {
                        lemma_selected_step(paths@, extension@, i as int);
                    }
                    if ends_with(p.as_str(), extension) {
                        let ghost before = sel@;
                        let ghost tables_before = self.tables();
                        if !contains_path(&sel, p) {
                            sel.push(p.clone());
                            proof {
                                assert forall|a: int, b: int| 0 <= a < b < sel@.len() implies #[trigger] sel@[a]@
                                    != #[trigger] sel@[b]@ by {
                                    if b == sel@.len() - 1 {
                                        assert(before[a].key_view() == sel@[a]@);
                                    }
                                }
                                assert forall|x: Seq<char>| key_set(sel@).contains(x) == key_set(before).insert(p@).contains(x) by {
                                    if key_set(sel@).contains(x) {
                                        let j = choose|j: int| 0 <= j < sel@.len() && #[trigger] sel@[j].key_view() == x;
                                        if j < before.len() {
                                            assert(before[j].key_view() == x);
                                        }
                                    }
                                    if key_set(before).contains(x) {
                                        let j = choose|j: int| 0 <= j < before.len() && #[trigger] before[j].key_view() == x;
                                        assert(sel@[j].key_view() == x);
                                    }
                                    if x == p@ {
                                        assert(sel@[sel@.len() - 1].key_view() == x);
                                    }
                                }
                                assert(key_set(sel@) =~= key_set(before).insert(p@));
                            }
                        } else {
                            proof {
                                assert(key_set(before).insert(p@) =~= key_set(before));
                            }
                        }
                        let fresh: KeyedMap<String, u64> = KeyedMap::new();
                        let ghost symbols_before = self.symbols@;
                        self.symbols.insert(p.clone(), fresh);
                        proof {
                            let chosen = selected_paths(paths@.take(i + 1), extension@);
                            let prev = selected_paths(paths@.take(i as int), extension@);
                            let target = old(self).tables().union_prefer_right(empty_tables(chosen));
                            assert(chosen == prev.insert(p@));
                            assert(self.symbols@ == symbols_before.insert(p@, fresh));
                            assert forall|q: Seq<char>| #[trigger] self.tables().contains_key(q)
                                == target.contains_key(q) by {
                                if q != p@ {
                                    assert(tables_before.contains_key(q) == symbols_before.contains_key(q));
                                }
                            }
                            assert forall|q: Seq<char>| #[trigger] self.tables().contains_key(q)
                                implies self.tables()[q] == target[q] by {
                                if q == p@ {
                                    assert(self.symbols@[q] == fresh);
                                    assert(empty_tables(chosen)[q] == Map::<Seq<char>, u64>::empty());
                                } else {
                                    assert(self.symbols@[q] == symbols_before[q]);
                                    assert(tables_before[q] == symbols_before[q]@);
                                }
                            }
                            assert(self.tables() =~= target);
                        }
                    }
                    i = i + 1;
                }
                proof {
                    assert(paths@.take(paths@.len() as int) =~= paths@);
                }
                let ghost chosen = key_set(sel@);
                self.files.insert(pid, sel);
                proof {
                    assert(self.files() =~= old(self).files().insert(pid, chosen));
                }
                Ok(())
            },
        }
    }

    /// The files of process `pid` whose name ends with `extension`, listed
    /// from the paths of its memory maps the first time that they are read;
    /// `maps` is what reading those maps gave, and is used only while the
    /// process is not listed. A failed read lists nothing.
    pub fn get_paths(&mut self, pid: u32, extension: &str, maps: Result<Vec<String>, String>) -> (r:
        Result<&Vec<String>, SymbolError>)
        requires
            old(self).wf(),
        ensures
            final(self).wf(),
            r is Ok ==> key_set(r->Ok_0@) == final(self).files()[pid] && distinct_paths(r->Ok_0@),
            old(self).files().contains_key(pid) ==> r is Ok && final(self).files() == old(
                self,
            ).files() && final(self).tables() == old(self).tables(),
            !old(self).files().contains_key(pid) ==> (match maps {
                Err(msg) => r == Err::<&Vec<String>, SymbolError>(SymbolError::ProcError(msg))
                    && final(self).files() == old(self).files()
                    && final(self).tables() == old(self).tables(),
                Ok(paths) => r is Ok && final(self).files() == old(self).files().insert(
                    pid,
                    selected_paths(paths@, extension@),
                ) && final(self).tables() == old(self).tables().union_prefer_right(
                    empty_tables(selected_paths(paths@, extension@)),
                ),
            }),
    {
        match self.load_map_paths(pid, extension, maps) {
            Err(e) => {
                return Err(e);
            },
            Ok(()) => {},
        }
        match self.files.get(&pid) {
            Some(v) => Ok(v),
            None => Err(SymbolError::SymbolPathsNotLoaded { pid }),
        }
    }
}

impl SymbolHandler {
    proof fn lemma_tables_insert(&self, before: &Self, p: Seq<char>, t: KeyedMap<String, u64>)
        requires
            self.symbols@ == before.symbols@.insert(p, t),
        ensures
            self.tables() == before.tables().insert(p, t@),
    {
        assert forall|q: Seq<char>| #[trigger] self.tables().contains_key(q) implies self.tables()[q]
            == before.tables().insert(p, t@)[q] by {
            if q != p {
                assert(self.symbols@[q] == before.symbols@[q]);
            }
        }
        assert(self.tables() =~= before.tables().insert(p, t@));
    }

    /// Whether the files of process `pid` are listed.
    pub fn knows_process(&self, pid: u32) -> (b: bool)
        requires
            self.wf(),
        ensures
            b == self.files().contains_key(pid),
    {
        self.files.contains_key(&pid)
    }

    /// Whether the symbols of `path` are still to be read: the file is
    /// listed and its table is empty.
    pub fn needs_symbols(&self, path: &String) -> (b: bool)
        requires
            self.wf(),
        ensures
            b == (self.tables().contains_key(path@) && self.tables()[path@].len() == 0),
    {
        match self.symbols.get(path) {
            Some(t) => t.len() == 0,
            None => false,
        }
    }

    /// The symbols of `path`, if it is listed.
    pub fn symbols_of(&self, path: &String) -> (r: Result<&KeyedMap<String, u64>, SymbolError>)
        requires
            self.wf(),
        ensures
            match r {
                Ok(t) => self.tables().contains_key(path@) && t.wf() && t@ == self.tables()[path@],
                Err(e) => !self.tables().contains_key(path@) && e == SymbolError::SymbolFileNotAvailable {
                    path: *path,
                },
            },
    {
        match self.symbols.get(path) {
            Some(t) => Ok(t),
            None => Err(SymbolError::SymbolFileNotAvailable { path: path.clone() }),
        }
    }

    /// Fills the empty symbol table of the shared object `so_path` from
    /// `entries`, what reading its dynamic symbols gave: every symbol at an
    /// address other than zero, by name. A file that is not listed is an
    /// error, one whose table is filled already is left as it is, and a
    /// symbol whose name cannot be read fails the whole table.
    pub fn load_so_symbols(
        &mut self,
        so_path: &String,
        entries: Result<Vec<(Option<String>, u64)>, SymbolError>,
    ) -> (r: Result<(), SymbolError>)
        requires
            old(self).wf(),
        ensures
            final(self).wf(),
            final(self).files() == old(self).files(),
            !old(self).tables().contains_key(so_path@) ==> r == Err::<(), SymbolError>(
                SymbolError::SymbolFileNotAvailable { path: *so_path },
            ) && final(self).tables() == old(self).tables(),
            old(self).tables().contains_key(so_path@) && old(self).tables()[so_path@].len() != 0
                ==> r is Ok && final(self).tables() == old(self).tables(),
            old(self).tables().contains_key(so_path@) && old(self).tables()[so_path@].len() == 0
                ==> (match entries {
                Err(e) => r == Err::<(), SymbolError>(e) && final(self).tables() == old(self).tables(),
                Ok(v) => if all_named(entries_view(v@)) {
                    r is Ok && final(self).tables() == old(self).tables().insert(
                        so_path@,
                        spec_so_table(entries_view(v@)),
                    )
                } else {
                    r == Err::<(), SymbolError>(SymbolError::ReadError(ObjectFileError::UnreadableName))
                        && final(self).tables() == old(self).tables()
                },
            }),
    {
        match self.symbols.get(so_path) {
            None => {
                return Err(SymbolError::SymbolFileNotAvailable { path: so_path.clone() });
            },
            Some(t) => {
                if t.len() != 0 {
                    return Ok(());
                }
            },
        }
        let v = match entries {
            Err(e) => {
                return Err(e);
            },
            Ok(v) => v,
        };
        let ghost view = entries_view(v@);
        let mut table: KeyedMap<String, u64> = KeyedMap::new();
        let mut i: usize = 0;
        proof {
            assert(spec_so_table(view.take(0)) =~= Map::<Seq<char>, u64>::empty()) by {
                assert(view.take(0).len() == 0);
            }
        }
        while i < v.len()
            invariant
                i <= v@.len(),
                view == entries_view(v@),
                *self == *old(self),
                old(self).wf(),
                old(self).tables().contains_key(so_path@),
                old(self).tables()[so_path@].len() == 0,
                entries == Ok::<Vec<(Option<String>, u64)>, SymbolError>(v),
                table.wf(),
                table@ == spec_so_table(view.take(i as int)),
                forall|j: int| 0 <= j < i ==> #[trigger] view[j].0 is Some,
            decreases v@.len() - i,
        {
            proof {
                assert(view.take(i + 1).drop_last() =~= view.take(i as int));
            }
            match &v[i].0 {
                None => {
                    proof {
                        assert(view[i as int].0 is None);
                    }
                    return Err(SymbolError::ReadError(ObjectFileError::UnreadableName));
                },
                Some(name) => {
                    let address = v[i].1;
                    proof {
                        assert(view[i as int] == (Some(name@), address));
                    }
                    if address != 0 {
                        table.insert(name.clone(), address);
                    }
                },
            }
            i = i + 1;
        }
        proof {
            assert(view.take(v@.len() as int) =~= view);
        }
        let ghost before = *self;
        let ghost t = table;
        self.symbols.insert(so_path.clone(), table);
        proof {
            self.lemma_tables_insert(&before, so_path@, t);
        }
        Ok(())
    }

    /// Fills the empty symbol table of the `.odex` file `odex_path` from the
    /// lines of oatdump's output, in order: each method at an offset other
    /// than zero, moved by `section`, the offset of the `oatdata` section.
    /// The first line that failed ends the reading with its error; what was
    /// read before it stays. A file that is not listed is an error, and one
    /// whose table is filled already is left as it is.
    pub fn load_oat_symbols(
        &mut self,
        odex_path: &String,
        section: Result<u64, SymbolError>,
        lines: Vec<Result<(String, String), SymbolError>>,
    ) -> (r: Result<(), SymbolError>)
        requires
            old(self).wf(),
            old(self).tables().contains_key(odex_path@) && old(self).tables()[odex_path@].len() == 0
                && section is Ok ==> oat_lines_valid(lines@, section->Ok_0),
        ensures
            final(self).wf(),
            final(self).files() == old(self).files(),
            !old(self).tables().contains_key(odex_path@) ==> r == Err::<(), SymbolError>(
                SymbolError::SymbolFileNotAvailable { path: *odex_path },
            ) && final(self).tables() == old(self).tables(),
            old(self).tables().contains_key(odex_path@) && old(self).tables()[odex_path@].len() != 0
                ==> r is Ok && final(self).tables() == old(self).tables(),
            old(self).tables().contains_key(odex_path@) && old(self).tables()[odex_path@].len() == 0
                ==> (match section {
                Err(e) => r == Err::<(), SymbolError>(e) && final(self).tables() == old(self).tables(),
                Ok(base) => {
                    let applied = oat_apply(old(self).tables()[odex_path@], lines@, base);
                    r == applied.1 && final(self).tables() == old(self).tables().insert(
                        odex_path@,
                        applied.0,
                    )
                },
            }),
    {
        match self.symbols.get(odex_path) {
            None => {
                return Err(SymbolError::SymbolFileNotAvailable { path: odex_path.clone() });
            },
            Some(t) => {
                if t.len() != 0 {
                    return Ok(());
                }
            },
        }
        let base = match section {
            Err(e) => {
                return Err(e);
            },
            Ok(b) => b,
        };
        let ghost start = *self;
        let mut table = match self.symbols.remove(odex_path) {
            Some(t) => t,
            None => {
                return Err(SymbolError::SymbolFileNotAvailable { path: odex_path.clone() });
            },
        };
        let ghost start_table = table@;
        let mut lines = lines;
        let ghost all = lines@;
        proof {
            assert(all.skip(0) =~= all);
        }
        let mut i: usize = 0;
        while i < lines.len() && lines[i].is_ok()
            invariant
                i <= lines@.len(),
                lines@ == all,
                table.wf(),
                oat_lines_valid(all, base),
                forall|j: int| 0 <= j < i ==> #[trigger] all[j] is Ok,
                oat_apply(start_table, all, base) == oat_apply(table@, all.skip(i as int), base),
            decreases lines@.len() - i,
        {
            proof {
                lemma_oat_line_valid(all, base, i as int);
                lemma_oat_apply_step(table@, all, base, i as int);
            }
            match &lines[i] {
                Ok((method, offset)) => {
                    add_oat_line(&mut table, method, offset, base);
                },
                Err(_) => {},
            }
            i = i + 1;
        }
        let ghost mid = *self;
        let ghost t = table;
        self.symbols.insert(odex_path.clone(), table);
        proof {
            self.lemma_tables_insert(&mid, odex_path@, t);
            start.lemma_tables_remove_insert(&mid, odex_path@);
        }
        if i < lines.len() {
            proof {
                assert(all.skip(i as int)[0] == all[i as int]);
            }
            match lines.remove(i) {
                Err(e) => Err(e),
                Ok(_) => Ok(()),
            }
        } else {
            proof {
                assert(all.skip(i as int).len() == 0);
            }
            Ok(())
        }
    }

    proof fn lemma_tables_remove_insert(&self, mid: &Self, p: Seq<char>)
        requires
            mid.symbols@ == self.symbols@.remove(p),
        ensures
            forall|m: Map<Seq<char>, u64>| #[trigger] mid.tables().insert(p, m) == self.tables().insert(p, m),
    {
        assert forall|m: Map<Seq<char>, u64>| #[trigger] mid.tables().insert(p, m) == self.tables().insert(p, m) by {
            assert forall|q: Seq<char>| #[trigger] mid.tables().insert(p, m).contains_key(q)
                implies mid.tables().insert(p, m)[q] == self.tables().insert(p, m)[q] by {
                if q != p {
                    assert(mid.symbols@[q] == self.symbols@[q]);
                }
            }
            assert(mid.tables().insert(p, m) =~= self.tables().insert(p, m));
        }
    }
}

proof fn lemma_oat_line_valid(lines: Seq<Result<(String, String), SymbolError>>, section: u64, i: int)
    requires
        oat_lines_valid(lines, section),
        0 <= i < lines.len(),
        forall|j: int| 0 <= j < i ==> #[trigger] lines[j] is Ok,
        lines[i] is Ok,
    ensures
        spec_u64_from_hex_str(encode_utf8(lines[i]->Ok_0.1@)) is Ok,
        oat_offset_value(lines[i]->Ok_0.1@) == 0 || oat_offset_value(lines[i]->Ok_0.1@) + section
            <= u64::MAX,
{
}

proof fn lemma_oat_apply_step(
    table: Map<Seq<char>, u64>,
    lines: Seq<Result<(String, String), SymbolError>>,
    section: u64,
    i: int,
)
    requires
        0 <= i < lines.len(),
        lines[i] is Ok,
    ensures
        oat_apply(table, lines.skip(i), section) == ({
            let (method, offset) = lines[i]->Ok_0;
            let v = oat_offset_value(offset@);
            let next = if v == 0 {
                table
            } else {
                table.insert(method@, (v + section) as u64)
            };
            oat_apply(next, lines.skip(i + 1), section)
        }),
{
    assert(lines.skip(i)[0] == lines[i]);
    assert(lines.skip(i).drop_first() =~= lines.skip(i + 1));
}

fn add_oat_line(table: &mut KeyedMap<String, u64>, method: &String, offset: &String, section: u64)
    requires
        old(table).wf(),
        spec_u64_from_hex_str(encode_utf8(offset@)) is Ok,
        oat_offset_value(offset@) == 0 || oat_offset_value(offset@) + section <= u64::MAX,
    ensures
        final(table).wf(),
        final(table)@ == (if oat_offset_value(offset@) == 0 {
            old(table)@
        } else {
            old(table)@.insert(method@, (oat_offset_value(offset@) + section) as u64)
        }),
{
    match u64_from_hex_str(offset.as_str()) {
        Ok(v) => {
            if v != 0 {
                table.insert(method.clone(), v + section);
            }
        },
        Err(_) => {},
    }
}

/// No two of `v` are the same text.
pub open spec fn distinct_paths(v: Seq<String>) -> bool {
    forall|i: int, j: int| 0 <= i < j < v.len() ==> #[trigger] v[i]@ != #[trigger] v[j]@
}

fn contains_path(v: &Vec<String>, p: &String) -> (b: bool)
    ensures
        b == key_set(v@).contains(p@),
{
    let mut i: usize = 0;
    while i < v.len()
        invariant
            i <= v@.len(),
            forall|j: int| 0 <= j < i ==> #[trigger] v@[j]@ != p@,
        decreases v@.len() - i,
    {
        if v[i] == *p {
            assert(v@[i as int].key_view() == p@);
            return true;
        }
        i = i + 1;
    }
    proof {
        if key_set(v@).contains(p@) {
            let j = choose|j: int| 0 <= j < v@.len() && #[trigger] v@[j].key_view() == p@;
            assert(v@[j]@ != p@);
        }
    }
    false
}

} // verus!
