use ziofa::oat_lookup::{contains, find_oat_symbol, oat_file_for_function, oat_files, LookupError};

fn strings(v: &[&str]) -> Vec<String> {
    v.iter().map(|s| s.to_string()).collect()
}

#[test]
fn substring_search() {
    assert!(contains("/data/app/base.odex", ".odex"));
    assert!(contains("abc", ""));
    assert!(!contains("ab", "abc"));
    assert!(!contains("/lib/libc.so", ".odex"));
}

#[test]
fn oat_files_are_the_odex_paths() {
    let maps = strings(&["/a/base.odex", "/b/libc.so", "/c/x.odex.flock"]);
    assert_eq!(oat_files(&maps), strings(&["/a/base.odex", "/c/x.odex.flock"]));
    assert_eq!(oat_file_for_function(&maps, "x.odex"), Some(2));
    assert_eq!(oat_file_for_function(&maps, "ziofa"), None);
}

#[test]
fn first_entry_of_the_method_decides() {
    let entries = vec![
        ("a".to_string(), "0x10".to_string()),
        ("b".to_string(), "0x0".to_string()),
        ("a".to_string(), "0x99".to_string()),
    ];
    assert!(matches!(find_oat_symbol(&entries, "a", 0x100), Ok(0x110)));
    match find_oat_symbol(&entries, "b", 0x100) {
        Err(LookupError::SymbolIsNotCompiled { symbol }) => assert_eq!(symbol, "b"),
        _ => panic!("expected an uncompiled symbol"),
    }
    match find_oat_symbol(&entries, "c", 0) {
        Err(LookupError::SymbolDoesNotExist { symbol }) => assert_eq!(symbol, "c"),
        _ => panic!("expected a missing symbol"),
    }
}
