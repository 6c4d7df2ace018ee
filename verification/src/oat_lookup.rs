//! Looking up one compiled Java method in the oat files that a process maps.
use vstd::prelude::*;
use vstd::utf8::encode_utf8;
use crate::symbols::oat_offset_value;
use crate::symbols::symbolizer::{spec_u64_from_hex_str, u64_from_hex_str};

verus! {

/// Why a method could not be found.
pub enum LookupError {
    /// No entry of oatdump's output names the method.
    SymbolDoesNotExist { symbol: String },
    /// The method is listed at offset zero: it was not compiled.
    SymbolIsNotCompiled { symbol: String },
    /// Something else failed; the text says what.
    Other { text: String },
}

/// Whether the bytes `needle` occur in the bytes `hay`.
pub open spec fn bytes_contain(hay: Seq<u8>, needle: Seq<u8>) -> bool {
    exists|k: int|
        0 <= k && k + needle.len() <= hay.len() && #[trigger] hay.subrange(k, k + needle.len())
            == needle
}

/// `str::contains` with a text pattern: the UTF-8 bytes of `needle` occur in
/// those of `s`.
pub open spec fn spec_contains(s: Seq<char>, needle: Seq<char>) -> bool {
    bytes_contain(encode_utf8(s), encode_utf8(needle))
}

fn bytes_at(hay: &[u8], needle: &[u8], k: usize) -> (b: bool)
    requires
        k + needle@.len() <= hay@.len(),
    ensures
        b == (hay@.subrange(k as int, k + needle@.len()) == needle@),
{
    let mut j: usize = 0;
    while j < needle.len()
        invariant
            j <= needle@.len(),
            k + needle@.len() <= hay.len(),
            forall|t: int| 0 <= t < j ==> hay@[k + t] == needle@[t],
        decreases needle@.len() - j,
    {
        if hay[k + j] != needle[j] {
            proof {
                assert(hay@.subrange(k as int, k + needle@.len())[j as int] != needle@[j as int]);
            }
            return false;
        }
        j = j + 1;
    }
    proof {
        assert(hay@.subrange(k as int, k + needle@.len()) =~= needle@);
    }
    true
}

/// Whether `needle` occurs in `s`.
pub fn contains(s: &str, needle: &str) -> (b: bool)
    ensures
        b == spec_contains(s@, needle@),
{
    let hay = s.as_bytes();
    let pat = needle.as_bytes();
    if pat.len() > hay.len() {
        return false;
    }
    let last = hay.len() - pat.len();
    let mut k: usize = 0;
    while k <= last
        invariant
            hay@ == encode_utf8(s@),
            pat@ == encode_utf8(needle@),
            last + pat@.len() == hay@.len(),
            k <= last + 1,
            forall|t: int| 0 <= t < k ==> #[trigger] hay@.subrange(t, t + pat@.len()) != pat@,
        decreases last + 1 - k,
    {
        if bytes_at(hay, pat, k) {
            return true;
        }
        if k == last {
            return false;
        }
        k = k + 1;
    }
    false
}

/// The paths, among `paths`, that contain `needle`, in order.
pub open spec fn spec_paths_containing(paths: Seq<String>, needle: Seq<char>) -> Seq<Seq<char>>
    decreases paths.len(),
{
    if paths.len() == 0 {
        Seq::empty()
    } else {
        let rest = spec_paths_containing(paths.drop_last(), needle);
        if spec_contains(paths.last()@, needle) {
            rest.push(paths.last()@)
        } else {
            rest
        }
    }
}

/// The paths of memory maps that name oat files: those containing `.odex`.
pub fn oat_files(paths: &Vec<String>) -> (r: Vec<String>)
    ensures
        r@.map_values(|p: String| p@) == spec_paths_containing(paths@, ".odex"@),
{
    let mut r: Vec<String> = Vec::new();
    let mut i: usize = 0;
    while i < paths.len()
        invariant
            i <= paths@.len(),
            r@.map_values(|p: String| p@) == spec_paths_containing(paths@.take(i as int), ".odex"@),
        decreases paths@.len() - i,
    {
        proof {
            assert(paths@.take(i + 1).drop_last() =~= paths@.take(i as int));
        }
        let ghost before = r@;
        if contains(paths[i].as_str(), ".odex") {
            r.push(paths[i].clone());
            proof {
                assert(r@.map_values(|p: String| p@) =~= before.map_values(|p: String| p@).push(
                    paths@[i as int]@,
                ));
            }
        }
        i = i + 1;
    }
    proof {
        assert(paths@.take(paths@.len() as int) =~= paths@);
    }
    r
}

/// The position of the first path that contains `needle`.
pub open spec fn first_containing(paths: Seq<String>, needle: Seq<char>) -> Option<int> {
    if exists|i: int| 0 <= i < paths.len() && spec_contains(#[trigger] paths[i]@, needle) {
        Some(
            choose|i: int|
                0 <= i < paths.len() && spec_contains(#[trigger] paths[i]@, needle) && forall|j: int|
                    0 <= j < i ==> !spec_contains(#[trigger] paths[j]@, needle),
        )
    } else {
        None
    }
}

/// The first of the oat files whose path contains `function_name`: the file
/// to look the method up in.
pub fn oat_file_for_function(paths: &Vec<String>, function_name: &str) -> (r: Option<usize>)
    ensures
        match r {
            Some(i) => i < paths@.len() && spec_contains(paths@[i as int]@, function_name@) && forall|
                j: int,
            | 0 <= j < i ==> !spec_contains(#[trigger] paths@[j]@, function_name@),
            None => forall|j: int|
                0 <= j < paths@.len() ==> !spec_contains(#[trigger] paths@[j]@, function_name@),
        },
{
    let mut i: usize = 0;
    while i < paths.len()
        invariant
            i <= paths@.len(),
            forall|j: int| 0 <= j < i ==> !spec_contains(#[trigger] paths@[j]@, function_name@),
        decreases paths@.len() - i,
    {
        if contains(paths[i].as_str(), function_name) {
            return Some(i);
        }
        i = i + 1;
    }
    None
}

/// The position of the first entry of oatdump's output for `method`.
pub open spec fn first_method(entries: Seq<(String, String)>, method: Seq<char>) -> Option<int>
    decreases entries.len(),
{
    if entries.len() == 0 {
        None
    } else if entries[0].0@ == method {
        Some(0)
    } else {
        match first_method(entries.drop_first(), method) {
            Some(i) => Some(i + 1),
            None => None,
        }
    }
}

proof fn lemma_first_method_bounds(entries: Seq<(String, String)>, method: Seq<char>)
    ensures
        match first_method(entries, method) {
            Some(i) => 0 <= i < entries.len() && entries[i].0@ == method,
            None => true,
        },
    decreases entries.len(),
{
    if entries.len() > 0 {
        lemma_first_method_bounds(entries.drop_first(), method);
    }
}

/// The address of `symbol_name` in an oat file whose `oatdata` section is at
/// `section`, from the entries of oatdump's output, each a method name and
/// its offset text: the first entry for the method decides. Missing, or
/// listed at offset zero, it is an error.
pub fn find_oat_symbol(entries: &Vec<(String, String)>, symbol_name: &str, section: u64) -> (r: Result<
    u64,
    LookupError,
>)
    requires
        match first_method(entries@, symbol_name@) {
            Some(i) => spec_u64_from_hex_str(encode_utf8(entries@[i].1@)) is Ok && (oat_offset_value(
                entries@[i].1@,
            ) == 0 || oat_offset_value(entries@[i].1@) + section <= u64::MAX),
            None => true,
        },
    ensures
        match first_method(entries@, symbol_name@) {
            None => r matches Err(LookupError::SymbolDoesNotExist { symbol }) && symbol@ == symbol_name@,
            Some(i) => if oat_offset_value(entries@[i].1@) == 0 {
                r matches Err(LookupError::SymbolIsNotCompiled { symbol }) && symbol@ == symbol_name@
            } else {
                r == Ok::<u64, LookupError>((oat_offset_value(entries@[i].1@) + section) as u64)
            },
        },
{
    let target = String::from_str(symbol_name);
    let mut i: usize = 0;
    proof {
        assert(entries@.skip(0) =~= entries@);
        lemma_first_method_bounds(entries@, symbol_name@);
    }
    while i < entries.len()
        invariant
            i <= entries@.len(),
            target@ == symbol_name@,
            forall|j: int| 0 <= j < i ==> #[trigger] entries@[j].0@ != symbol_name@,
            first_method(entries@, symbol_name@) == (match first_method(entries@.skip(i as int), symbol_name@) {
                Some(k) => Some(k + i),
                None => None::<int>,
            }),
            match first_method(entries@, symbol_name@) {
                Some(k) => spec_u64_from_hex_str(encode_utf8(entries@[k].1@)) is Ok && (
                oat_offset_value(entries@[k].1@) == 0 || oat_offset_value(entries@[k].1@) + section
                    <= u64::MAX),
                None => true,
            },
        decreases entries@.len() - i,
    {
        proof {
            assert(entries@.skip(i as int).drop_first() =~= entries@.skip(i + 1));
            assert(entries@.skip(i as int)[0] == entries@[i as int]);
        }
        if entries[i].0 == target {
            let value = match u64_from_hex_str(entries[i].1.as_str()) {
                Ok(v) => v,
                Err(_) => 0,
            };
            if value == 0 {
                return Err(LookupError::SymbolIsNotCompiled { symbol: target });
            }
            return Ok(value + section);
        }
        i = i + 1;
    }
    proof {
        assert(entries@.skip(i as int).len() == 0);
    }
    Err(LookupError::SymbolDoesNotExist { symbol: target })
}

} // verus!
