use typst_world::fonts::FontCatalog;
use typst_world::fonts::is_font_extension;
use typst_world::fonts::system_font_dirs;
use typst_world::path_norm::PathPart;
use typst_world::path_norm::normalize;

#[test]
fn unparseable_candidates_add_nothing() {
    let mut cat = FontCatalog::new();
    assert_eq!(cat.slots.len(), 0);
    cat.add_file(&"bad.ttf".to_string(), &[0u8; 32]);
    assert_eq!(cat.slots.len(), 0);
    cat.add_file(&"empty.otf".to_string(), &[]);
    assert_eq!(cat.slots.len(), 0);
}

#[test]
fn failed_decode_is_cached_and_not_retried() {
    let mut cat = FontCatalog::new();
    let data = typst_assets::fonts().next().unwrap();
    cat.add_file(&"x.ttf".to_string(), data);
    assert!(cat.slots.len() > 0);
    assert!(cat.cached(0).is_none());
    // Decoding garbage bytes fails; the absence is memoized, not retried.
    assert!(cat.load(0, vec![0u8; 8]).is_none());
    match cat.cached(0) {
        Some(outcome) => assert!(outcome.is_none()),
        None => panic!("the decode outcome was not memoized"),
    }
}

#[test]
fn failed_read_is_cached_as_absence() {
    let mut cat = FontCatalog::new();
    let data = typst_assets::fonts().next().unwrap();
    cat.add_file(&"y.otf".to_string(), data);
    assert!(cat.load_failed(0).is_none());
    match cat.cached(0) {
        Some(outcome) => assert!(outcome.is_none()),
        None => panic!("the read failure was not memoized"),
    }
    let (path, index) = cat.location(0);
    assert_eq!(path, "y.otf".to_string());
    assert_eq!(index, 0);
}

#[test]
fn font_extensions_are_matched_case_insensitively() {
    assert!(is_font_extension(b"ttf"));
    assert!(is_font_extension(b"TTF"));
    assert!(is_font_extension(b"Otf"));
    assert!(is_font_extension(b"ttc"));
    assert!(is_font_extension(b"OTC"));
    assert!(!is_font_extension(b"ttx"));
    assert!(!is_font_extension(b"woff"));
    assert!(!is_font_extension(b""));
}

#[test]
fn system_font_directories_are_fixed() {
    let dirs = system_font_dirs();
    assert_eq!(dirs.len(), 2);
    assert_eq!(dirs[0], "/usr/share/fonts".to_string());
    assert_eq!(dirs[1], "/usr/local/share/fonts".to_string());
}

#[test]
fn normalize_collapses_cur_and_parent_dirs() {
    let parts = vec![
        PathPart::Normal("a".to_string()),
        PathPart::CurDir,
        PathPart::Normal("b".to_string()),
        PathPart::ParentDir,
        PathPart::Normal("c".to_string()),
    ];
    let out = normalize(&parts);
    assert_eq!(out.len(), 2);
    assert!(matches!(&out[0], PathPart::Normal(s) if s == "a"));
    assert!(matches!(&out[1], PathPart::Normal(s) if s == "c"));
}

#[test]
fn normalize_keeps_unresolvable_parents() {
    let parts = vec![PathPart::ParentDir, PathPart::Normal("a".to_string())];
    let out = normalize(&parts);
    assert_eq!(out.len(), 2);
    assert!(matches!(&out[0], PathPart::ParentDir));
    assert!(matches!(&out[1], PathPart::Normal(s) if s == "a"));
}

#[test]
fn normalize_does_not_escape_the_root() {
    let parts = vec![PathPart::RootDir, PathPart::ParentDir, PathPart::Normal("a".to_string())];
    let out = normalize(&parts);
    assert_eq!(out.len(), 3);
    assert!(matches!(&out[0], PathPart::RootDir));
    assert!(matches!(&out[1], PathPart::ParentDir));
    assert!(matches!(&out[2], PathPart::Normal(s) if s == "a"));
}

#[test]
fn normalize_pops_each_parent_once() {
    let parts = vec![
        PathPart::Normal("a".to_string()),
        PathPart::Normal("b".to_string()),
        PathPart::ParentDir,
        PathPart::ParentDir,
        PathPart::ParentDir,
    ];
    let out = normalize(&parts);
    assert_eq!(out.len(), 1);
    assert!(matches!(&out[0], PathPart::ParentDir));
}
