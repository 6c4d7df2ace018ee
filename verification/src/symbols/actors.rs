//! The messages of the symbol actor, and how the actors of the symbol
//! pipeline answer the failure or end of a child.
use vstd::prelude::*;

verus! {

/// The actor that indexes symbols and answers searches over them.
pub struct SymbolActor;

/// A search over symbol names: the query text and the most hits wanted.
pub struct SearchReq {
    pub query: String,
    pub limit: u64,
}

/// A request for the offset of a symbol, by exact name, in one library.
pub struct GetOffsetRequest {
    pub symbol_name: String,
    pub library_path: String,
}

/// A symbol found in the index: the method, its offset, and the library
/// that holds it.
pub struct IndexedSymbol {
    pub method: String,
    pub offset: u64,
    pub path: String,
}

/// Why a document of the index does not make a symbol.
#[derive(Debug, Clone, Copy, PartialEq, Eq, Structural)]
pub enum DocumentError {
    /// The name or the path is missing or not text.
    ExpectedStr,
    /// The offset is missing or not a number.
    ExpectedU64,
}

/// The fields of a document, as the index gives them back.
pub struct DocumentFields {
    pub name: Option<String>,
    pub path: Option<String>,
    pub offset: Option<u64>,
}

/// The symbol that a document stands for: name, then path, then offset are
/// read, and the first one missing decides the error.
pub open spec fn spec_symbol_from_document(d: DocumentFields) -> Result<IndexedSymbol, DocumentError> {
    match d.name {
        None => Err(DocumentError::ExpectedStr),
        Some(name) => match d.path {
            None => Err(DocumentError::ExpectedStr),
            Some(path) => match d.offset {
                None => Err(DocumentError::ExpectedU64),
                Some(offset) => Ok(IndexedSymbol { method: name, offset, path }),
            },
        },
    }
}

/// The symbol that the document `d` stands for.
pub fn symbol_from_document(d: DocumentFields) -> (r: Result<IndexedSymbol, DocumentError>)
    ensures
        r == spec_symbol_from_document(d),
{
    match d.name {
        None => Err(DocumentError::ExpectedStr),
        Some(name) => match d.path {
            None => Err(DocumentError::ExpectedStr),
            Some(path) => match d.offset {
                None => Err(DocumentError::ExpectedU64),
                Some(offset) => Ok(IndexedSymbol { method: name, offset, path }),
            },
        },
    }
}

/// The hits of a search, as symbols in the order of the hits; the first
/// document that makes no symbol fails the whole answer.
pub open spec fn spec_search_results(docs: Seq<DocumentFields>) -> Result<Seq<IndexedSymbol>, DocumentError>
    decreases docs.len(),
{
    if docs.len() == 0 {
        Ok(Seq::empty())
    } else {
        match spec_search_results(docs.drop_last()) {
            Err(e) => Err(e),
            Ok(found) => match spec_symbol_from_document(docs.last()) {
                Err(e) => Err(e),
                Ok(s) => Ok(found.push(s)),
            },
        }
    }
}

proof fn lemma_search_error_persists(docs: Seq<DocumentFields>, k: int)
    requires
        0 <= k <= docs.len(),
        spec_search_results(docs.take(k)) is Err,
    ensures
        spec_search_results(docs) == spec_search_results(docs.take(k)),
    decreases docs.len() - k,
{
    if k < docs.len() {
        assert(docs.take(k + 1).drop_last() =~= docs.take(k));
        lemma_search_error_persists(docs, k + 1);
    } else {
        assert(docs.take(k) =~= docs);
    }
}

fn copy_text(t: &Option<String>) -> (c: Option<String>)
    ensures
        c == *t,
{
    match t {
        Some(s) => Some(s.clone()),
        None => None,
    }
}

/// The answer to a search whose hits are the documents `docs`.
pub fn search_results(docs: &Vec<DocumentFields>) -> (r: Result<Vec<IndexedSymbol>, DocumentError>)
    ensures
        match spec_search_results(docs@) {
            Ok(found) => r matches Ok(v) && v@ == found,
            Err(e) => r == Err::<Vec<IndexedSymbol>, DocumentError>(e),
        },
{
    let ghost all = docs@;
    proof {
        assert(all.take(0) =~= Seq::<DocumentFields>::empty());
    }
    let mut out: Vec<IndexedSymbol> = Vec::new();
    let mut i: usize = 0;
    while i < docs.len()
        invariant
            all == docs@,
            i <= all.len(),
            spec_search_results(all.take(i as int)) == Ok::<Seq<IndexedSymbol>, DocumentError>(out@),
        decreases all.len() - i,
    {
        let d = DocumentFields {
            name: copy_text(&docs[i].name),
            path: copy_text(&docs[i].path),
            offset: docs[i].offset,
        };
        proof {
            assert(d == all[i as int]);
            assert(all.take(i + 1).drop_last() =~= all.take(i as int));
            assert(all.take(i + 1).last() == all[i as int]);
        }
        match symbol_from_document(d) {
            Err(e) => {
                proof {
                    lemma_search_error_persists(all, i + 1);
                }
                return Err(e);
            },
            Ok(s) => {
                out.push(s);
            },
        }
        i = i + 1;
    }
    proof {
        assert(all.take(all.len() as int) =~= all);
    }
    Ok(out)
}

/// The answer to an offset request: the offset of the first matching
/// document, none when nothing matched, and an error when that document has
/// no offset.
pub fn first_offset(offsets: &Vec<Option<u64>>) -> (r: Result<Option<u64>, DocumentError>)
    ensures
        offsets@.len() == 0 ==> r == Ok::<Option<u64>, DocumentError>(None),
        offsets@.len() > 0 ==> match offsets@[0] {
            Some(o) => r == Ok::<Option<u64>, DocumentError>(Some(o)),
            None => r == Err::<Option<u64>, DocumentError>(DocumentError::ExpectedU64),
        },
{
    if offsets.len() == 0 {
        return Ok(None);
    }
    match offsets[0] {
        Some(o) => Ok(Some(o)),
        None => Err(DocumentError::ExpectedU64),
    }
}

} // verus!
