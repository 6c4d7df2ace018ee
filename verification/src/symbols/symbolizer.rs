//! Reading symbols: the dynamic symbols of shared objects, and the method
//! offsets that oatdump reports for compiled Java code.
use vstd::prelude::*;
use vstd::utf8::encode_utf8;
use object::{Object, ObjectSymbol};
use symbolic_demangle::Demangle;

verus! {

/// A symbol and its offset in the file that holds it.
pub struct Symbol {
    pub name: String,
    pub offset: u64,
}

/// Whether a symbol is kept: one at offset zero was not compiled.
pub fn filter_log_empty(symbol: &Symbol) -> (keep: bool)
    ensures
        keep == (symbol.offset != 0),
{
    symbol.offset != 0
}

/// Why an offset text is not a hexadecimal `u64`.
#[derive(Debug, Clone, Copy, PartialEq, Eq, Structural)]
pub enum OffsetError {
    /// The text does not start with `0x`.
    MissingPrefix,
    /// Nothing follows the prefix.
    Empty,
    /// A character is no hexadecimal digit.
    InvalidDigit,
    /// The value does not fit in a `u64`.
    PosOverflow,
}

/// The value of a hexadecimal digit, given as an ASCII byte.
pub open spec fn hex_digit_value(b: u8) -> Option<nat> {
    if 48 <= b <= 57 {
        Some((b - 48) as nat)
    } else if 97 <= b <= 102 {
        Some((b - 87) as nat)
    } else if 65 <= b <= 70 {
        Some((b - 55) as nat)
    } else {
        None
    }
}

/// Reads hexadecimal digits from left to right: the value, or the first
/// failure met on the way, a byte that is no digit or a value past
/// `u64::MAX`.
pub open spec fn hex_digits_value(d: Seq<u8>) -> Result<nat, OffsetError>
    decreases d.len(),
{
    if d.len() == 0 {
        Ok(0)
    } else {
        match hex_digits_value(d.drop_last()) {
            Err(e) => Err(e),
            Ok(v) => match hex_digit_value(d.last()) {
                None => Err(OffsetError::InvalidDigit),
                Some(x) => if v * 16 + x > u64::MAX {
                    Err(OffsetError::PosOverflow)
                } else {
                    Ok(v * 16 + x)
                },
            },
        }
    }
}

/// `u64::from_str_radix(text, 16)` on the bytes of `text`: an optional `+`,
/// then at least one hexadecimal digit.
pub open spec fn spec_from_hex(src: Seq<u8>) -> Result<u64, OffsetError> {
    if src.len() == 0 {
        Err(OffsetError::Empty)
    } else if (src[0] == 43 || src[0] == 45) && src.len() == 1 {
        Err(OffsetError::InvalidDigit)
    } else {
        let digits = if src[0] == 43 {
            src.skip(1)
        } else {
            src
        };
        match hex_digits_value(digits) {
            Ok(v) => Ok(v as u64),
            Err(e) => Err(e),
        }
    }
}

/// An offset as oatdump writes it: `0x` followed by a hexadecimal number.
pub open spec fn spec_u64_from_hex_str(bytes: Seq<u8>) -> Result<u64, OffsetError> {
    if bytes.len() >= 2 && bytes[0] == 48 && bytes[1] == 120 {
        spec_from_hex(bytes.skip(2))
    } else {
        Err(OffsetError::MissingPrefix)
    }
}

proof fn lemma_hex_error_persists(d: Seq<u8>, k: int)
    requires
        0 <= k <= d.len(),
        hex_digits_value(d.take(k)) is Err,
    ensures
        hex_digits_value(d) == hex_digits_value(d.take(k)),
    decreases d.len() - k,
{
    if k < d.len() {
        assert(d.take(k + 1).drop_last() =~= d.take(k));
        lemma_hex_error_persists(d, k + 1);
    } else {
        assert(d.take(k) =~= d);
    }
}

fn hex_digit(b: u8) -> (r: Option<u64>)
    ensures
        match hex_digit_value(b) {
            Some(x) => r == Some(x as u64),
            None => r is None,
        },
{
    if 48 <= b && b <= 57 {
        Some((b - 48) as u64)
    } else if 97 <= b && b <= 102 {
        Some((b - 87) as u64)
    } else if 65 <= b && b <= 70 {
        Some((b - 55) as u64)
    } else {
        None
    }
}

fn from_hex_bytes(bytes: &[u8], start: usize) -> (r: Result<u64, OffsetError>)
    requires
        start <= bytes@.len(),
    ensures
        r == spec_from_hex(bytes@.skip(start as int)),
{
    let n = bytes.len();
    let ghost src = bytes@.skip(start as int);
    if start == n {
        return Err(OffsetError::Empty);
    }
    let first = bytes[start];
    if (first == 43 || first == 45) && n - start == 1 {
        return Err(OffsetError::InvalidDigit);
    }
    let begin: usize = if first == 43 {
        start + 1
    } else {
        start
    };
    let ghost digits = bytes@.subrange(begin as int, n as int);
    proof {
        if first == 43 {
            assert(src.skip(1) =~= digits);
        } else {
            assert(src =~= digits);
        }
        assert(digits.take(0) =~= Seq::<u8>::empty());
        assert(src[0] == first);
    }
    let mut value: u64 = 0;
    let mut i: usize = begin;
    while i < n
        invariant
            begin <= i <= n,
            n == bytes@.len(),
            src == bytes@.skip(start as int),
            digits == bytes@.subrange(begin as int, n as int),
            hex_digits_value(digits.take(i - begin)) == Ok::<nat, OffsetError>(value as nat),
            spec_from_hex(src) == (match hex_digits_value(digits) {
                Ok(v) => Ok(v as u64),
                Err(e) => Err(e),
            }),
        decreases n - i,
    {
        let b = bytes[i];
        let ghost k: int = i - begin;
        proof {
            assert(digits.take(k + 1).drop_last() =~= digits.take(k));
            assert(digits.take(k + 1).last() == b);
        }
        match hex_digit(b) {
            None => {
                proof {
                    assert(hex_digits_value(digits.take(k + 1)) == Err::<nat, OffsetError>(
                        OffsetError::InvalidDigit,
                    ));
                    lemma_hex_error_persists(digits, k + 1);
                }
                return Err(OffsetError::InvalidDigit);
            },
            Some(x) => {
                match value.checked_mul(16) {
                    None => {
                        proof {
                            assert(hex_digits_value(digits.take(k + 1)) == Err::<nat, OffsetError>(
                                OffsetError::PosOverflow,
                            ));
                            lemma_hex_error_persists(digits, k + 1);
                                }
                        return Err(OffsetError::PosOverflow);
                    },
                    Some(scaled) => {
                        match scaled.checked_add(x) {
                            None => {
                                proof {
                                    assert(hex_digits_value(digits.take(k + 1)) == Err::<nat, OffsetError>(
                                        OffsetError::PosOverflow,
                                    ));
                                    lemma_hex_error_persists(digits, k + 1);
                                                }
                                return Err(OffsetError::PosOverflow);
                            },
                            Some(next) => {
                                value = next;
                            },
                        }
                    },
                }
            },
        }
        i = i + 1;
    }
    proof {
        assert(digits.take(n - begin) =~= digits);
    }
    Ok(value)
}

/// Reads an offset as oatdump writes it, `0x` and hexadecimal digits, the
/// way `u64::from_str_radix` reads the digits.
pub fn u64_from_hex_str(offset: &str) -> (r: Result<u64, OffsetError>)
    ensures
        r == spec_u64_from_hex_str(encode_utf8(offset@)),
{
    let bytes = offset.as_bytes();
    if bytes.len() < 2 || bytes[0] != 48 || bytes[1] != 120 {
        return Err(OffsetError::MissingPrefix);
    }
    from_hex_bytes(bytes, 2)
}

/// A line of oatdump's output, once the JSON parser has split it into the
/// method name and the offset text.
pub fn oat_symbol(method: String, offset: &str) -> (r: Result<Symbol, OffsetError>)
    ensures
        match spec_u64_from_hex_str(encode_utf8(offset@)) {
            Ok(v) => r == Ok::<Symbol, OffsetError>(Symbol { name: method, offset: v }),
            Err(e) => r == Err::<Symbol, OffsetError>(e),
        },
{
    match u64_from_hex_str(offset) {
        Ok(v) => Ok(Symbol { name: method, offset: v }),
        Err(e) => Err(e),
    }
}

/// The symbols of an oat file as the daemon keeps them: those at offset zero
/// dropped, the others moved by the offset of the `oatdata` section.
pub open spec fn spec_relocate(symbols: Seq<Symbol>, base: u64) -> Seq<Symbol>
    decreases symbols.len(),
{
    if symbols.len() == 0 {
        Seq::empty()
    } else {
        let rest = spec_relocate(symbols.drop_last(), base);
        let last = symbols.last();
        if last.offset == 0 {
            rest
        } else {
            rest.push(Symbol { name: last.name, offset: (last.offset + base) as u64 })
        }
    }
}

/// Drops the symbols that were not compiled and moves the others by `base`,
/// the offset of the `oatdata` section.
pub fn relocate_oat_symbols(symbols: &Vec<Symbol>, base: u64) -> (r: Vec<Symbol>)
    requires
        forall|i: int|
            0 <= i < symbols@.len() && #[trigger] symbols@[i].offset != 0 ==> symbols@[i].offset
                + base <= u64::MAX,
    ensures
        r@ == spec_relocate(symbols@, base),
{
    let mut r: Vec<Symbol> = Vec::new();
    let mut i: usize = 0;
    while i < symbols.len()
        invariant
            i <= symbols@.len(),
            r@ == spec_relocate(symbols@.take(i as int), base),
            forall|j: int|
                0 <= j < symbols@.len() && #[trigger] symbols@[j].offset != 0 ==> symbols@[j].offset
                    + base <= u64::MAX,
        decreases symbols@.len() - i,
    {
        proof {
            assert(symbols@.take(i + 1).drop_last() =~= symbols@.take(i as int));
        }
        let s = &symbols[i];
        if filter_log_empty(s) {
            r.push(Symbol { name: s.name.clone(), offset: s.offset + base });
        }
        i = i + 1;
    }
    proof {
        assert(symbols@.take(symbols@.len() as int) =~= symbols@);
    }
    r
}

/// What the dynamic symbol table of an object file holds, as the `object`
/// crate reads it: each symbol's name (absent where it cannot be read) and
/// address, in table order; `None` where the bytes are no object file.
pub uninterp spec fn object_dynamic_symbols(data: Seq<u8>) -> Option<Seq<(Option<Seq<char>>, u64)>>;

/// The view of symbol table entries.
pub open spec fn entries_view(v: Seq<(Option<String>, u64)>) -> Seq<(Option<Seq<char>>, u64)> {
    v.map_values(
        |e: (Option<String>, u64)|
            (
                match e.0 {
                    Some(s) => Some(s@),
                    None => None,
                },
                e.1,
            ),
    )
}

#[verifier::external_type_specification]
#[verifier::external_body]
pub struct ExObjectReadError(object::read::Error);

/// Parses `data` with `object::File::parse` and lists its dynamic symbols,
/// each by `ObjectSymbol::name` and `ObjectSymbol::address`. The contract
/// claims only that the list is the named value `object_dynamic_symbols`.
#[verifier::external_body]
fn dynamic_symbols(data: &[u8]) -> (r: Result<Vec<(Option<String>, u64)>, object::read::Error>)
    ensures
        match r {
            Ok(v) => object_dynamic_symbols(data@) == Some(entries_view(v@)),
            Err(_) => object_dynamic_symbols(data@) is None,
        },
{
    let file = object::File::parse(data)?;
    Ok(file.dynamic_symbols().map(|s| (s.name().ok().map(String::from), s.address())).collect())
}

/// What `symbolic_demangle` makes of a symbol name with complete
/// demangling, the name itself where it cannot demangle it.
pub uninterp spec fn demangled(name: Seq<char>) -> Seq<char>;

/// Demangles `name` through `Demangle::try_demangle` on a
/// `symbolic_common::Name`, with `DemangleOptions::complete()`. The contract
/// claims only that the result is the named value `demangled(name)`.
#[verifier::external_body]
fn demangle_name(name: &str) -> (r: String)
    ensures
        r@ == demangled(name@),
{
    symbolic_common::Name::from(name).try_demangle(symbolic_demangle::DemangleOptions::complete()).into_owned()
}

/// Why the symbols of an object file could not be read.
#[derive(Debug, Clone, Copy, PartialEq, Eq, Structural)]
pub enum ObjectFileError {
    /// The bytes are no object file that the `object` crate reads.
    Malformed,
    /// No dynamic symbol has the name looked for.
    SymbolNotFound,
    /// The name of a dynamic symbol could not be read.
    UnreadableName,
}

/// The address of the first symbol named `name`.
pub open spec fn first_named(syms: Seq<(Option<Seq<char>>, u64)>, name: Seq<char>) -> Option<u64>
    decreases syms.len(),
{
    if syms.len() == 0 {
        None
    } else if syms[0].0 == Some(name) {
        Some(syms[0].1)
    } else {
        first_named(syms.drop_first(), name)
    }
}

/// The address of the first dynamic symbol named `name` in the object file
/// `data`.
pub fn dynamic_symbol_address(data: &[u8], name: &str) -> (r: Result<u64, ObjectFileError>)
    ensures
        match object_dynamic_symbols(data@) {
            None => r == Err::<u64, ObjectFileError>(ObjectFileError::Malformed),
            Some(syms) => match first_named(syms, name@) {
                Some(a) => r == Ok::<u64, ObjectFileError>(a),
                None => r == Err::<u64, ObjectFileError>(ObjectFileError::SymbolNotFound),
            },
        },
{
    let entries = match dynamic_symbols(data) {
        Ok(v) => v,
        Err(_) => {
            return Err(ObjectFileError::Malformed);
        },
    };
    let target = String::from_str(name);
    let ghost syms = entries_view(entries@);
    proof {
        assert(syms.skip(0) =~= syms);
    }
    let mut i: usize = 0;
    while i < entries.len()
        invariant
            i <= entries@.len(),
            syms == entries_view(entries@),
            object_dynamic_symbols(data@) == Some(syms),
            target@ == name@,
            first_named(syms, name@) == first_named(syms.skip(i as int), name@),
        decreases entries@.len() - i,
    {
        proof {
            assert(syms.skip(i as int).drop_first() =~= syms.skip(i + 1));
        }
        match &entries[i].0 {
            Some(n) => {
                if *n == target {
                    proof {
                        assert(syms.skip(i as int)[0] == syms[i as int]);
                        assert(syms[i as int] == (Some(n@), entries@[i as int].1));
                    }
                    return Ok(entries[i].1);
                }
            },
            None => {},
        }
        i = i + 1;
    }
    Err(ObjectFileError::SymbolNotFound)
}

/// The offset of the `oatdata` section, that is the address of the first
/// dynamic symbol with that name, in the object file `data`.
pub fn oatdata_offset(data: &[u8]) -> (r: Result<u64, ObjectFileError>)
    ensures
        match object_dynamic_symbols(data@) {
            None => r == Err::<u64, ObjectFileError>(ObjectFileError::Malformed),
            Some(syms) => match first_named(syms, "oatdata"@) {
                Some(a) => r == Ok::<u64, ObjectFileError>(a),
                None => r == Err::<u64, ObjectFileError>(ObjectFileError::SymbolNotFound),
            },
        },
{
    dynamic_symbol_address(data, "oatdata")
}

/// A symbol of a shared object: its demangled name and its address.
pub fn so_symbol(name: &str, address: u64) -> (s: Symbol)
    ensures
        s.name@ == demangled(name@),
        s.offset == address,
{
    Symbol { name: demangle_name(name), offset: address }
}

/// The symbols of a shared object, as name and offset: every dynamic symbol
/// whose name can be read, demangled, in table order.
pub open spec fn spec_so_symbols(syms: Seq<(Option<Seq<char>>, u64)>) -> Seq<(Seq<char>, u64)>
    decreases syms.len(),
{
    if syms.len() == 0 {
        Seq::empty()
    } else {
        let rest = spec_so_symbols(syms.drop_last());
        match syms.last().0 {
            Some(n) => rest.push((demangled(n), syms.last().1)),
            None => rest,
        }
    }
}

/// The view of symbols as name and offset.
pub open spec fn symbols_view(v: Seq<Symbol>) -> Seq<(Seq<char>, u64)> {
    v.map_values(|s: Symbol| (s.name@, s.offset))
}

/// The symbols of the shared object `data`.
pub fn so_symbols(data: &[u8]) -> (r: Result<Vec<Symbol>, ObjectFileError>)
    ensures
        match object_dynamic_symbols(data@) {
            None => r == Err::<Vec<Symbol>, ObjectFileError>(ObjectFileError::Malformed),
            Some(syms) => r is Ok && symbols_view(r->Ok_0@) == spec_so_symbols(syms),
        },
{
    let entries = match dynamic_symbols(data) {
        Ok(v) => v,
        Err(_) => {
            return Err(ObjectFileError::Malformed);
        },
    };
    let ghost syms = entries_view(entries@);
    let mut out: Vec<Symbol> = Vec::new();
    let mut i: usize = 0;
    while i < entries.len()
        invariant
            i <= entries@.len(),
            syms == entries_view(entries@),
            symbols_view(out@) == spec_so_symbols(syms.take(i as int)),
        decreases entries@.len() - i,
    {
        proof {
            assert(syms.take(i + 1).drop_last() =~= syms.take(i as int));
        }
        let ghost before = out@;
        match &entries[i].0 {
            Some(n) => {
                out.push(so_symbol(n.as_str(), entries[i].1));
                proof {
                    assert(symbols_view(out@) =~= symbols_view(before).push((demangled(n@), entries@[i as int].1)));
                }
            },
            None => {},
        }
        i = i + 1;
    }
    proof {
        assert(syms.take(entries@.len() as int) =~= syms);
    }
    Ok(out)
}

} // verus!
