//! Telling symbol files apart by the extension of their path.
use vstd::prelude::*;
use vstd::string::StringExecFns;

verus! {

/// A file that holds symbols, tagged with its kind.
#[derive(Debug)]
pub enum SymbolFilePath {
    Odex(String),
    Oat(String),
    Art(String),
    So(String),
}

/// The path that a tagged symbol file carries.
pub open spec fn spec_path_of(f: SymbolFilePath) -> String {
    match f {
        SymbolFilePath::Odex(p) => p,
        SymbolFilePath::Oat(p) => p,
        SymbolFilePath::Art(p) => p,
        SymbolFilePath::So(p) => p,
    }
}

/// The extension of a path as `std::path::Path::extension` finds it, as text.
pub uninterp spec fn path_extension(path: Seq<char>) -> Option<Seq<char>>;

/// Calls `std::path::Path::extension` on `path` and hands back the extension
/// as a `String`. The contract claims only that the result is the named value
/// `path_extension(path)`; what that value is for a given path is left to std.
#[verifier::external_body]
fn extension_of(path: &str) -> (r: Option<String>)
    ensures
        (match r {
            Some(e) => path_extension(path@) == Some(e@),
            None => path_extension(path@) == None::<Seq<char>>,
        }),
{
    match std::path::Path::new(path).extension() {
        Some(ext) => match ext.to_str() {
            Some(s) => Some(s.to_owned()),
            None => None,
        },
        None => None,
    }
}

/// The tag that a path gets from its extension: `odex`, `oat`, `art` and
/// `so` name the four kinds, and any other extension, or none, is refused
/// with the path handed back.
pub open spec fn spec_classify(path: String, ext: Option<Seq<char>>) -> Result<SymbolFilePath, String> {
    match ext {
        Some(e) => if e == "odex"@ {
            Ok(SymbolFilePath::Odex(path))
        } else if e == "oat"@ {
            Ok(SymbolFilePath::Oat(path))
        } else if e == "art"@ {
            Ok(SymbolFilePath::Art(path))
        } else if e == "so"@ {
            Ok(SymbolFilePath::So(path))
        } else {
            Err(path)
        },
        None => Err(path),
    }
}

/// Tags `path` by the extension `ext` that it has.
pub fn classify(path: String, ext: Option<String>) -> (r: Result<SymbolFilePath, String>)
    ensures
        r == spec_classify(
            path,
            match ext {
                Some(e) => Some(e@),
                None => None,
            },
        ),
{
    match ext {
        Some(e) => {
            if e == String::from_str("odex") {
                Ok(SymbolFilePath::Odex(path))
            } else if e == String::from_str("oat") {
                Ok(SymbolFilePath::Oat(path))
            } else if e == String::from_str("art") {
                Ok(SymbolFilePath::Art(path))
            } else if e == String::from_str("so") {
                Ok(SymbolFilePath::So(path))
            } else {
                Err(path)
            }
        },
        None => Err(path),
    }
}

impl SymbolFilePath {
    /// Tags a path by its extension; a path with none of the four extensions
    /// comes back as the error.
    pub fn try_from(value: String) -> (r: Result<SymbolFilePath, String>)
        ensures
            r == spec_classify(value, path_extension(value@)),
    {
        let ext = extension_of(value.as_str());
        classify(value, ext)
    }

    /// The path of this symbol file.
    pub fn path(&self) -> (p: &String)
        ensures
            *p == spec_path_of(*self),
    {
        match self {
            SymbolFilePath::Odex(path_buf) => path_buf,
            SymbolFilePath::Oat(path_buf) => path_buf,
            SymbolFilePath::Art(path_buf) => path_buf,
            SymbolFilePath::So(path_buf) => path_buf,
        }
    }
}

} // verus!
