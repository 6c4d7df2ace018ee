use ziofa::symbols::actors::{
    first_offset, search_results, symbol_from_document, DocumentError, DocumentFields,
    GetOffsetRequest, SearchReq, SymbolActor,
};
use ziofa::symbols::index::split_camel_case;
use ziofa::symbols::symbolizer::{
    dynamic_symbol_address, filter_log_empty, oat_symbol, oatdata_offset, relocate_oat_symbols,
    so_symbol, so_symbols, u64_from_hex_str, ObjectFileError, OffsetError, Symbol,
};
use ziofa::symbols::walking::{classify, SymbolFilePath};
use ziofa::symbols::{ends_with, symbol_file_kind, SymbolError, SymbolFileKind, SymbolHandler};

#[test]
fn hex_offsets_parse() {
    assert_eq!(u64_from_hex_str("0x0"), Ok(0));
    assert_eq!(u64_from_hex_str("0x1f"), Ok(31));
    assert_eq!(u64_from_hex_str("0xABCdef"), Ok(0xabcdef));
    assert_eq!(u64_from_hex_str("0x+10"), Ok(16));
    assert_eq!(u64_from_hex_str("0xffffffffffffffff"), Ok(u64::MAX));
    assert_eq!(u64_from_hex_str("0x0000000000000000001"), Ok(1));
}

#[test]
fn hex_offset_errors() {
    assert_eq!(u64_from_hex_str("1f"), Err(OffsetError::MissingPrefix));
    assert_eq!(u64_from_hex_str("0X1f"), Err(OffsetError::MissingPrefix));
    assert_eq!(u64_from_hex_str(""), Err(OffsetError::MissingPrefix));
    assert_eq!(u64_from_hex_str("0x"), Err(OffsetError::Empty));
    assert_eq!(u64_from_hex_str("0x+"), Err(OffsetError::InvalidDigit));
    assert_eq!(u64_from_hex_str("0x-1"), Err(OffsetError::InvalidDigit));
    assert_eq!(u64_from_hex_str("0x1g"), Err(OffsetError::InvalidDigit));
    assert_eq!(u64_from_hex_str("0x10000000000000000"), Err(OffsetError::PosOverflow));
    // the first failure from the left decides
    assert_eq!(u64_from_hex_str("0x10000000000000000z"), Err(OffsetError::PosOverflow));
    assert_eq!(u64_from_hex_str("0xz0000000000000000"), Err(OffsetError::InvalidDigit));
}

#[test]
fn hex_parse_agrees_with_std() {
    for text in ["0", "a", "FF", "+7", "123456789abcdef0", "ffffffffffffffff"] {
        let ours = u64_from_hex_str(&format!("0x{text}")).unwrap();
        assert_eq!(ours, u64::from_str_radix(text, 16).unwrap());
    }
}

#[test]
fn oat_symbol_reads_offset() {
    let s = oat_symbol("void A.b()".to_string(), "0x10").unwrap();
    assert_eq!(s.name, "void A.b()");
    assert_eq!(s.offset, 16);
    assert!(matches!(oat_symbol("x".to_string(), "10"), Err(OffsetError::MissingPrefix)));
}

#[test]
fn uncompiled_symbols_are_filtered() {
    assert!(!filter_log_empty(&Symbol { name: "a".to_string(), offset: 0 }));
    assert!(filter_log_empty(&Symbol { name: "a".to_string(), offset: 1 }));
}

#[test]
fn oat_symbols_are_relocated() {
    let symbols = vec![
        Symbol { name: "a".to_string(), offset: 0x10 },
        Symbol { name: "b".to_string(), offset: 0 },
        Symbol { name: "c".to_string(), offset: 0x20 },
    ];
    let r = relocate_oat_symbols(&symbols, 0x1000);
    assert_eq!(r.len(), 2);
    assert_eq!((r[0].name.as_str(), r[0].offset), ("a", 0x1010));
    assert_eq!((r[1].name.as_str(), r[1].offset), ("c", 0x1020));
}

#[test]
fn malformed_object_files_are_reported() {
    let junk = b"definitely not an object file".to_vec();
    assert_eq!(oatdata_offset(&junk), Err(ObjectFileError::Malformed));
    assert_eq!(dynamic_symbol_address(&junk, "main"), Err(ObjectFileError::Malformed));
    assert!(matches!(so_symbols(&junk), Err(ObjectFileError::Malformed)));
}

#[test]
fn shared_object_names_are_demangled() {
    let s = so_symbol("_ZN3foo3barEv", 0x40);
    assert_eq!(s.name, "foo::bar()");
    assert_eq!(s.offset, 0x40);
    let plain = so_symbol("main", 1);
    assert_eq!(plain.name, "main");
}

#[test]
fn symbol_files_are_tagged_by_extension() {
    assert!(matches!(SymbolFilePath::try_from("/system/framework/boot.odex".to_string()), Ok(SymbolFilePath::Odex(_))));
    assert!(matches!(SymbolFilePath::try_from("/data/app/base.oat".to_string()), Ok(SymbolFilePath::Oat(_))));
    assert!(matches!(SymbolFilePath::try_from("/system/boot.art".to_string()), Ok(SymbolFilePath::Art(_))));
    let so = SymbolFilePath::try_from("/system/lib64/libc.so".to_string()).unwrap();
    assert_eq!(so.path(), "/system/lib64/libc.so");
    assert_eq!(SymbolFilePath::try_from("/system/lib64/libc.so.6".to_string()).unwrap_err(), "/system/lib64/libc.so.6");
    assert_eq!(SymbolFilePath::try_from("/system/.so".to_string()).unwrap_err(), "/system/.so");
    assert_eq!(SymbolFilePath::try_from("/system/bin".to_string()).unwrap_err(), "/system/bin");
    assert!(matches!(classify("x".to_string(), Some("oat".to_string())), Ok(SymbolFilePath::Oat(_))));
    assert!(classify("x".to_string(), None).is_err());
}

#[test]
fn ends_with_compares_bytes() {
    assert!(ends_with("base.odex", ".odex"));
    assert!(ends_with("x", ""));
    assert!(!ends_with("so", ".so"));
    assert!(!ends_with("libc.so.6", ".so"));
    assert_eq!(symbol_file_kind("/a/b.odex"), SymbolFileKind::Oat);
    assert_eq!(symbol_file_kind("/a/libart.so"), SymbolFileKind::So);
    assert_eq!(symbol_file_kind("/a/b.oat"), SymbolFileKind::Other);
}

fn strings(v: &[&str]) -> Vec<String> {
    v.iter().map(|s| s.to_string()).collect()
}

#[test]
fn paths_are_listed_once_per_pid() {
    let mut h = SymbolHandler::new();
    let maps = strings(&["/a/x.odex", "/a/y.so", "/a/x.odex", "/a/z.odex"]);
    let mut paths = h.get_paths(7, ".odex", Ok(maps)).unwrap().clone();
    paths.sort();
    assert_eq!(paths, strings(&["/a/x.odex", "/a/z.odex"]));
    // the second call answers from the cache, whatever the maps say now
    let again = h.get_paths(7, ".odex", Err("gone".to_string())).unwrap();
    assert_eq!(again.len(), 2);
    assert!(h.needs_symbols(&"/a/x.odex".to_string()));
    assert!(!h.needs_symbols(&"/a/y.so".to_string()));
}

#[test]
fn failed_maps_are_read_again() {
    let mut h = SymbolHandler::new();
    match h.get_paths(3, ".so", Err("no such process".to_string())) {
        Err(SymbolError::ProcError(msg)) => assert_eq!(msg, "no such process"),
        _ => panic!("expected the error of the maps"),
    }
    assert!(!h.knows_process(3));
    assert_eq!(h.get_paths(3, ".so", Ok(strings(&["/l.so"]))).unwrap(), &strings(&["/l.so"]));
}

#[test]
fn shared_object_symbols_are_loaded_once() {
    let mut h = SymbolHandler::new();
    h.get_paths(1, ".so", Ok(strings(&["/l.so"]))).unwrap();
    let path = "/l.so".to_string();
    let entries = vec![(Some("a".to_string()), 1u64), (Some("b".to_string()), 0), (Some("a".to_string()), 3)];
    assert!(h.load_so_symbols(&path, Ok(entries)).is_ok());
    let table = h.symbols_of(&path).ok().unwrap();
    assert_eq!(table.len(), 1);
    assert_eq!(table.get(&"a".to_string()), Some(&3));
    // a filled table is kept
    assert!(h.load_so_symbols(&path, Ok(vec![(Some("c".to_string()), 9)])).is_ok());
    assert_eq!(h.symbols_of(&path).ok().unwrap().len(), 1);
}

#[test]
fn unreadable_symbol_name_fails_the_table() {
    let mut h = SymbolHandler::new();
    h.get_paths(1, ".so", Ok(strings(&["/l.so"]))).unwrap();
    let path = "/l.so".to_string();
    let r = h.load_so_symbols(&path, Ok(vec![(Some("a".to_string()), 1), (None, 2)]));
    assert!(matches!(r, Err(SymbolError::ReadError(ObjectFileError::UnreadableName))));
    assert_eq!(h.symbols_of(&path).ok().unwrap().len(), 0);
    let missing = h.load_so_symbols(&"/other.so".to_string(), Ok(vec![]));
    assert!(matches!(missing, Err(SymbolError::SymbolFileNotAvailable { .. })));
}

#[test]
fn oat_symbols_are_loaded_until_the_first_failure() {
    let mut h = SymbolHandler::new();
    h.get_paths(1, ".odex", Ok(strings(&["/b.odex"]))).unwrap();
    let path = "/b.odex".to_string();
    let lines = vec![
        Ok(("m1".to_string(), "0x10".to_string())),
        Ok(("m0".to_string(), "0x0".to_string())),
        Err(SymbolError::SerdeError("bad line".to_string())),
        Ok(("m2".to_string(), "0x20".to_string())),
    ];
    let r = h.load_oat_symbols(&path, Ok(0x100), lines);
    assert!(matches!(r, Err(SymbolError::SerdeError(_))));
    let table = h.symbols_of(&path).ok().unwrap();
    assert_eq!(table.len(), 1);
    assert_eq!(table.get(&"m1".to_string()), Some(&0x110));
    let section_failed = SymbolHandler::new().load_oat_symbols(&path, Err(SymbolError::IOError("x".to_string())), vec![]);
    assert!(matches!(section_failed, Err(SymbolError::SymbolFileNotAvailable { .. })));
}

#[test]
fn odex_handler_lists_odex_files() {
    let mut h = ziofa::odex_symbols::SymbolHandler::new();
    let paths = h.get_odex_paths(4, Ok(strings(&["/a.odex", "/b.so"]))).unwrap().clone();
    assert_eq!(paths, strings(&["/a.odex"]));
    let path = "/a.odex".to_string();
    assert!(h.load_symbols(&path, Ok(0), vec![Ok(("m".to_string(), "0x8".to_string()))]).is_ok());
    assert_eq!(h.get_symbols(&path).ok().unwrap().get(&"m".to_string()), Some(&8));
}

fn chars(s: &str) -> Vec<char> {
    s.chars().collect()
}

fn texts(parts: Vec<Vec<char>>) -> Vec<String> {
    parts.into_iter().map(|p| p.into_iter().collect()).collect()
}

#[test]
fn camel_case_names_are_split() {
    assert_eq!(texts(split_camel_case(&chars("getFooBar"))), vec!["getFooBar", "Foo", "Bar"]);
    assert_eq!(texts(split_camel_case(&chars("FooBar"))), vec!["FooBar", "Foo", "Bar"]);
    assert_eq!(texts(split_camel_case(&chars("lower"))), vec!["lower"]);
    assert_eq!(texts(split_camel_case(&chars("ÄpfelÖl"))), vec!["ÄpfelÖl", "Äpfel", "Öl"]);
    assert_eq!(texts(split_camel_case(&chars(""))), vec![""]);
}

#[test]
fn documents_become_symbols() {
    let doc = |name: Option<&str>, path: Option<&str>, offset: Option<u64>| DocumentFields {
        name: name.map(String::from),
        path: path.map(String::from),
        offset,
    };
    let s = symbol_from_document(doc(Some("m"), Some("/l.so"), Some(3))).ok().unwrap();
    assert_eq!((s.method.as_str(), s.path.as_str(), s.offset), ("m", "/l.so", 3));
    assert!(matches!(symbol_from_document(doc(None, Some("/l"), None)), Err(DocumentError::ExpectedStr)));
    assert!(matches!(symbol_from_document(doc(Some("m"), Some("/l"), None)), Err(DocumentError::ExpectedU64)));
    let all = search_results(&vec![doc(Some("a"), Some("/p"), Some(1)), doc(Some("b"), Some("/q"), Some(2))]).ok().unwrap();
    assert_eq!(all.len(), 2);
    assert_eq!(all[1].method, "b");
    let failed = search_results(&vec![doc(Some("a"), Some("/p"), Some(1)), doc(Some("b"), None, Some(2))]);
    assert!(matches!(failed, Err(DocumentError::ExpectedStr)));
    assert_eq!(first_offset(&vec![]), Ok(None));
    assert_eq!(first_offset(&vec![Some(5), None]), Ok(Some(5)));
    assert_eq!(first_offset(&vec![None, Some(5)]), Err(DocumentError::ExpectedU64));
}

#[test]
fn requests_hold_their_fields() {
    let _actor = SymbolActor;
    let s = SearchReq { query: "foo".to_string(), limit: 10 };
    assert_eq!((s.query.as_str(), s.limit), ("foo", 10));
    let g = GetOffsetRequest { symbol_name: "a".to_string(), library_path: "/l".to_string() };
    assert_eq!((g.symbol_name.as_str(), g.library_path.as_str()), ("a", "/l"));
}
