use std::hash::Hasher;

use siphasher::sip128::Hasher128;
use siphasher::sip128::SipHasher13;

use typst_world::diag::Diagnostic;
use typst_world::diag::SpanInfo;
use typst_world::diag::TracePoint;
use typst_world::errors::FileError;
use typst_world::file_id::FileId;
use typst_world::fonts::FontCatalog;
use typst_world::identity::path_hash;
use typst_world::numfmt::dec_str;
use typst_world::world::World;

fn fresh_world() -> World {
    World::new(".".to_string(), FontCatalog::new())
}

#[test]
fn registry_insert_and_lookup() {
    let mut w = fresh_world();
    let id = w.insert("a.tsp", "alpha".to_string());
    let unit = w.source(&id).unwrap();
    assert!(unit.id.id_eq(&id));
    assert_eq!(unit.text, "alpha".to_string());
}

#[test]
fn registry_first_match_wins() {
    let mut w = fresh_world();
    let id1 = w.insert("a.tsp", "first".to_string());
    let id2 = w.insert("a.tsp", "second".to_string());
    assert!(id1.id_eq(&id2));
    let unit = w.source(&id1).unwrap();
    assert_eq!(unit.text, "first".to_string());
}

#[test]
fn registry_unknown_identity_is_not_source() {
    let w = fresh_world();
    let id = FileId::Virtual("nowhere.tsp".to_string());
    assert_eq!(w.source(&id).err().unwrap(), FileError::NotSource);
}

#[test]
fn file_re_exposes_text_as_bytes() {
    let mut w = fresh_world();
    let id = w.begin_compile("Hello".to_string());
    let bytes = w.file(&id).unwrap();
    assert_eq!(bytes, b"Hello".to_vec());
}

#[test]
fn entity_identities_do_not_match_virtual_ones() {
    let mut w = fresh_world();
    let id = w.insert("a.tsp", "alpha".to_string());
    let other = FileId::Entity(42);
    assert!(!id.id_eq(&other));
    assert_eq!(w.source(&other).err().unwrap(), FileError::NotSource);
}

#[test]
fn begin_compile_sets_main() {
    let mut w = fresh_world();
    let id = w.begin_compile("Hello".to_string());
    let main = w.main_source().unwrap();
    assert!(main.id.id_eq(&id));
    assert_eq!(main.text, "Hello".to_string());
}

#[test]
fn reset_isolation_between_runs() {
    let mut w = fresh_world();
    w.begin_compile("one".to_string());
    let extra = w.insert("other.tsp", "x".to_string());
    assert!(w.source(&extra).is_ok());
    w.begin_compile("two".to_string());
    assert_eq!(w.source(&extra).err().unwrap(), FileError::NotSource);
    let main = w.main_source().unwrap();
    assert_eq!(main.text, "two".to_string());
}

#[test]
fn path_hash_matches_the_fixed_seed_hash() {
    let mut state = SipHasher13::new();
    state.write_u64(7);
    state.write_u64(9);
    let expected = state.finish128().as_u128();
    assert_eq!(path_hash(7, 9), expected);
    assert_ne!(path_hash(9, 7), path_hash(7, 9));
    assert_eq!(path_hash(7, 9), path_hash(7, 9));
}

#[test]
fn identity_dedup_across_spellings() {
    let mut w = fresh_world();
    let a = w.slot_for(&"a.txt".to_string(), Ok((7, 9)), None).unwrap();
    let b = w
        .slot_for(&"./a.txt".to_string(), Ok((7, 9)), Some("a.txt".to_string()))
        .unwrap();
    assert_eq!(a, b);
    assert_eq!(w.slots.len(), 1);
}

#[test]
fn cached_path_outcome_is_reused() {
    let mut w = fresh_world();
    let a = w.slot_for(&"a.txt".to_string(), Ok((1, 2)), None).unwrap();
    // The second probe would give another identity; the cache must win.
    let b = w.slot_for(&"a.txt".to_string(), Ok((3, 4)), None).unwrap();
    assert_eq!(a, b);
    assert_eq!(w.slots.len(), 1);
}

#[test]
fn failed_resolutions_are_cached_too() {
    let mut w = fresh_world();
    let first = w.slot_for(&"gone.txt".to_string(), Err(FileError::NotFound), None);
    assert_eq!(first.err().unwrap(), FileError::NotFound);
    // Even a later successful probe is not consulted: the failure is cached.
    let second = w.slot_for(&"gone.txt".to_string(), Ok((1, 1)), None);
    assert_eq!(second.err().unwrap(), FileError::NotFound);
    assert_eq!(w.slots.len(), 0);
}

#[test]
fn slot_cells_memoize_their_first_outcome() {
    let mut w = fresh_world();
    let i = w.slot_for(&"a.txt".to_string(), Ok((7, 9)), None).unwrap();
    assert!(w.slot_source_get(i).is_none());
    assert!(w.slot_buffer_get(i).is_none());
    w.slot_source_fill(i, Ok(FileId::Virtual("a.txt".to_string())));
    w.slot_buffer_fill(i, Ok(vec![1, 2, 3]));
    match w.slot_source_get(i) {
        Some(Ok(id)) => assert!(id.id_eq(&FileId::Virtual("a.txt".to_string()))),
        _ => panic!("source cell lost its outcome"),
    }
    match w.slot_buffer_get(i) {
        Some(Ok(bytes)) => assert_eq!(bytes, vec![1, 2, 3]),
        _ => panic!("byte cell lost its outcome"),
    }
}

#[test]
fn decimal_formatting() {
    assert_eq!(dec_str(0), "0".to_string());
    assert_eq!(dec_str(9), "9".to_string());
    assert_eq!(dec_str(10), "10".to_string());
    assert_eq!(dec_str(1234567890), "1234567890".to_string());
}

#[test]
fn diagnostic_formatting_single_error() {
    let mut w = fresh_world();
    let id = w.begin_compile("Hello".to_string());
    let diags = vec![Diagnostic {
        span: SpanInfo { file: Some(id), range: Some((5, 9)) },
        message: "msg".to_string(),
        trace: Vec::new(),
    }];
    let out = w.format_diagnostics(&diags).unwrap();
    assert_eq!(out, "compile error:\n5:9 msg".to_string());
}

#[test]
fn diagnostic_formatting_with_trace() {
    let mut w = fresh_world();
    let id = w.begin_compile("Hello".to_string());
    let trace = vec![TracePoint {
        span: SpanInfo {
            file: Some(FileId::Virtual("MARKUP.tsp".to_string())),
            range: Some((1, 2)),
        },
        message: "called here".to_string(),
    }];
    let diags = vec![Diagnostic {
        span: SpanInfo { file: Some(id), range: Some((5, 9)) },
        message: "boom".to_string(),
        trace,
    }];
    let out = w.format_diagnostics(&diags).unwrap();
    assert_eq!(
        out,
        "compile error:\n5:9 boomstacktrace:\n  1:2 called here".to_string()
    );
}

#[test]
fn diagnostic_with_detached_span_is_an_error() {
    let mut w = fresh_world();
    w.begin_compile("Hello".to_string());
    let diags = vec![Diagnostic {
        span: SpanInfo { file: None, range: Some((0, 1)) },
        message: "lost".to_string(),
        trace: Vec::new(),
    }];
    assert_eq!(w.format_diagnostics(&diags).err().unwrap(), FileError::Detached);
}

#[test]
fn diagnostic_with_unregistered_source_is_not_source() {
    let mut w = fresh_world();
    w.begin_compile("Hello".to_string());
    let diags = vec![Diagnostic {
        span: SpanInfo {
            file: Some(FileId::Virtual("elsewhere.tsp".to_string())),
            range: Some((0, 1)),
        },
        message: "lost".to_string(),
        trace: Vec::new(),
    }];
    assert_eq!(w.format_diagnostics(&diags).err().unwrap(), FileError::NotSource);
}

#[test]
fn diagnostic_with_no_range_is_detached() {
    let mut w = fresh_world();
    let id = w.begin_compile("Hello".to_string());
    let diags = vec![Diagnostic {
        span: SpanInfo { file: Some(id), range: None },
        message: "lost".to_string(),
        trace: Vec::new(),
    }];
    assert_eq!(w.format_diagnostics(&diags).err().unwrap(), FileError::Detached);
}

#[test]
fn canonical_spelling_is_cached_as_an_alias() {
    let mut w = fresh_world();
    let a = w
        .slot_for(&"x/../b.txt".to_string(), Ok((5, 5)), Some("b.txt".to_string()))
        .unwrap();
    // The canonical spelling was cached as an alias: the different probe
    // value below must never be consulted.
    let b = w.slot_for(&"b.txt".to_string(), Ok((6, 6)), None).unwrap();
    assert_eq!(a, b);
    assert_eq!(w.slots.len(), 1);
}
