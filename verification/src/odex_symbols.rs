//! The symbol cache for `.odex` files alone: the files each process maps,
//! and the method offsets in each of them.
use vstd::prelude::*;
use crate::keyed_map::KeyedMap;
use crate::symbols::{
    empty_tables, oat_apply, oat_lines_valid, selected_paths, distinct_paths, SymbolError,
};
use crate::filters::key_set;

verus! {

/// The `.odex` files of each process, and the symbols of each file.
pub struct SymbolHandler {
    inner: crate::symbols::SymbolHandler,
}

impl SymbolHandler {
    /// The tables are well formed.
    pub closed spec fn wf(&self) -> bool {
        self.inner.wf()
    }

    /// The `.odex` files that each listed process maps.
    pub closed spec fn odex_files(&self) -> Map<u32, Set<Seq<char>>> {
        self.inner.files()
    }

    /// The symbols of each listed file.
    pub closed spec fn tables(&self) -> Map<Seq<char>, Map<Seq<char>, u64>> {
        self.inner.tables()
    }

    /// A handler that knows no process and no file.
    pub fn new() -> (h: Self)
        ensures
            h.wf(),
            h.odex_files() == Map::<u32, Set<Seq<char>>>::empty(),
            h.tables() == Map::<Seq<char>, Map<Seq<char>, u64>>::empty(),
    {
        SymbolHandler { inner: crate::symbols::SymbolHandler::new() }
    }

    /// The `.odex` files of process `pid`, listed from the paths of its
    /// memory maps the first time that they are read; `maps` is what reading
    /// those maps gave, and is used only while the process is not listed. A
    /// failed read lists nothing, so a later call reads again.
    pub fn get_odex_paths(&mut self, pid: u32, maps: Result<Vec<String>, String>) -> (r: Result<
        &Vec<String>,
        SymbolError,
    >)
        requires
            old(self).wf(),
        ensures
            final(self).wf(),
            r is Ok ==> key_set(r->Ok_0@) == final(self).odex_files()[pid] && distinct_paths(
                r->Ok_0@,
            ),
            old(self).odex_files().contains_key(pid) ==> r is Ok && final(self).odex_files() == old(
                self,
            ).odex_files() && final(self).tables() == old(self).tables(),
            !old(self).odex_files().contains_key(pid) ==> (match maps {
                Err(msg) => r == Err::<&Vec<String>, SymbolError>(SymbolError::ProcError(msg))
                    && final(self).odex_files() == old(self).odex_files()
                    && final(self).tables() == old(self).tables(),
                Ok(paths) => r is Ok && final(self).odex_files() == old(self).odex_files().insert(
                    pid,
                    selected_paths(paths@, ".odex"@),
                ) && final(self).tables() == old(self).tables().union_prefer_right(
                    empty_tables(selected_paths(paths@, ".odex"@)),
                ),
            }),
    {
        self.inner.get_paths(pid, ".odex", maps)
    }

    /// Fills the empty symbol table of `odex_path` from the lines of
    /// oatdump's output, each method at an offset other than zero moved by
    /// `section`; see `crate::symbols::SymbolHandler::load_oat_symbols`.
    pub fn load_symbols(
        &mut self,
        odex_path: &String,
        section: Result<u64, SymbolError>,
        lines: Vec<Result<(String, String), SymbolError>>,
    ) -> (r: Result<(), SymbolError>)
        requires
            old(self).wf(),
            old(self).tables().contains_key(odex_path@) && old(self).tables()[odex_path@].len() == 0
                && section is Ok ==> oat_lines_valid(lines@, section->Ok_0),
        ensures
            final(self).wf(),
            final(self).odex_files() == old(self).odex_files(),
            !old(self).tables().contains_key(odex_path@) ==> r == Err::<(), SymbolError>(
                SymbolError::SymbolFileNotAvailable { path: *odex_path },
            ) && final(self).tables() == old(self).tables(),
            old(self).tables().contains_key(odex_path@) && old(self).tables()[odex_path@].len() != 0
                ==> r is Ok && final(self).tables() == old(self).tables(),
            old(self).tables().contains_key(odex_path@) && old(self).tables()[odex_path@].len() == 0
                ==> (match section {
                Err(e) => r == Err::<(), SymbolError>(e) && final(self).tables() == old(self).tables(),
                Ok(base) => {
                    let applied = oat_apply(old(self).tables()[odex_path@], lines@, base);
                    r == applied.1 && final(self).tables() == old(self).tables().insert(
                        odex_path@,
                        applied.0,
                    )
                },
            }),
    {
        self.inner.load_oat_symbols(odex_path, section, lines)
    }

    /// The symbols of `odex_path`, if it is listed.
    pub fn get_symbols(&self, odex_path: &String) -> (r: Result<&KeyedMap<String, u64>, SymbolError>)
        requires
            self.wf(),
        ensures
            match r {
                Ok(t) => self.tables().contains_key(odex_path@) && t.wf() && t@ == self.tables()[odex_path@],
                Err(e) => !self.tables().contains_key(odex_path@) && e == SymbolError::SymbolFileNotAvailable {
                    path: *odex_path,
                },
            },
    {
        self.inner.symbols_of(odex_path)
    }
}

} // verus!
