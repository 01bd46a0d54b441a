use std::cell::RefCell;

use comemo::Prehashed;
use typst::diag::FileResult;
use typst::eval::Tracer;
use typst::foundations::Bytes;
use typst::foundations::Datetime;
use typst::foundations::Smart;
use typst::syntax::FileId;
use typst::syntax::Source;
use typst::syntax::VirtualPath;
use typst::text::Font;
use typst::text::FontBook;
use typst::Library;
use typst::World;
use typst::WorldExt;

use typst_world::diag::Diagnostic;
use typst_world::diag::SpanInfo;
use typst_world::diag::TracePoint;
use typst_world::file_id::FileId as LibId;
use typst_world::fonts::FontCatalog;

/// Builds a catalog from the bundled font files, as discovery would from a
/// fixed directory: every embedded record becomes one slot, in file order.
fn asset_catalog() -> FontCatalog {
    let mut catalog = FontCatalog::new();
    for (i, data) in typst_assets::fonts().enumerate() {
        catalog.add_file(&format!("font-{}.ttf", i), data);
    }
    catalog
}

struct TestWorld {
    library: Prehashed<Library>,
    book: Prehashed<FontBook>,
    inner: RefCell<typst_world::world::World>,
    main: RefCell<Option<Source>>,
}

impl TestWorld {
    fn new() -> Self {
        let catalog = asset_catalog();
        let book = catalog.book.clone();
        TestWorld {
            library: Prehashed::new(Library::default()),
            book: Prehashed::new(book),
            inner: RefCell::new(typst_world::world::World::new(".".to_string(), catalog)),
            main: RefCell::new(None),
        }
    }

    fn begin(&mut self, markup: &str) {
        self.inner.borrow_mut().begin_compile(markup.to_string());
        let id = FileId::new(None, VirtualPath::new("MARKUP.tsp"));
        *self.main.borrow_mut() = Some(Source::new(id, markup.to_string()));
    }
}

fn lib_id_of(id: FileId) -> LibId {
    LibId::Virtual(id.vpath().as_rootless_path().to_string_lossy().into_owned())
}

impl World for TestWorld {
    fn library(&self) -> &Prehashed<Library> {
        &self.library
    }

    fn book(&self) -> &Prehashed<FontBook> {
        &self.book
    }

    fn main(&self) -> Source {
        self.main.borrow().clone().expect("no compile run is active")
    }

    fn source(&self, id: FileId) -> FileResult<Source> {
        match self.inner.borrow().source(&lib_id_of(id)) {
            Ok(unit) => Ok(Source::new(id, unit.text)),
            Err(_) => Err(typst::diag::FileError::NotSource),
        }
    }

    fn file(&self, id: FileId) -> FileResult<Bytes> {
        match self.inner.borrow().file(&lib_id_of(id)) {
            Ok(bytes) => Ok(Bytes::from(bytes)),
            Err(_) => Err(typst::diag::FileError::NotSource),
        }
    }

    fn font(&self, id: usize) -> Option<Font> {
        let mut inner = self.inner.borrow_mut();
        if let Some(outcome) = inner.fonts.cached(id) {
            return outcome;
        }
        // Serve the decode from the bundled bytes, as a read would.
        let (_, _) = inner.fonts.location(id);
        let mut source_file: usize = 0;
        let mut base: usize = 0;
        for (i, data) in typst_assets::fonts().enumerate() {
            let here = typst::text::FontInfo::iter(data).count();
            if id < base + here {
                source_file = i;
                break;
            }
            base += here;
        }
        let data = typst_assets::fonts().nth(source_file).unwrap();
        inner.fonts.load(id, data.to_vec())
    }

    fn today(&self, _offset: Option<i64>) -> Option<Datetime> {
        None
    }
}

#[test]
fn catalog_from_fixed_files_is_deterministic() {
    let a = asset_catalog();
    let b = asset_catalog();
    assert!(a.slots.len() > 0);
    assert_eq!(a.slots.len(), b.slots.len());
    for i in 0..a.slots.len() {
        let (pa, ia) = a.location(i);
        let (pb, ib) = b.location(i);
        assert_eq!(pa, pb);
        assert_eq!(ia, ib);
    }
}

#[test]
fn catalog_length_counts_every_embedded_record() {
    let catalog = asset_catalog();
    let total: usize = typst_assets::fonts()
        .map(|data| typst::text::FontInfo::iter(data).count())
        .sum();
    assert_eq!(catalog.slots.len(), total);
}

#[test]
fn decoding_a_real_font_succeeds_and_is_memoized() {
    let mut catalog = asset_catalog();
    assert!(catalog.cached(0).is_none());
    let data = typst_assets::fonts().next().unwrap();
    let font = catalog.load(0, data.to_vec());
    assert!(font.is_some());
    match catalog.cached(0) {
        Some(Some(_)) => {}
        _ => panic!("the decoded font was not memoized"),
    }
}

#[test]
fn end_to_end_compile_produces_a_pdf() {
    let mut world = TestWorld::new();
    world.begin("Hello");
    let mut tracer = Tracer::new();
    let document = typst::compile(&world, &mut tracer).expect("the markup must compile");
    let pdf = typst_pdf::pdf(&document, Smart::Auto, None);
    assert!(pdf.len() > 0);
    assert!(pdf.starts_with(b"%PDF-"));
}

#[test]
fn failed_compile_formats_diagnostics_with_ranges() {
    let mut world = TestWorld::new();
    world.begin("#xyz");
    let mut tracer = Tracer::new();
    let errors = match typst::compile(&world, &mut tracer) {
        Err(errors) => errors,
        Ok(_) => panic!("an unknown variable must not compile"),
    };
    let mut diags: Vec<Diagnostic> = Vec::new();
    for error in errors.iter() {
        diags.push(Diagnostic {
            span: SpanInfo {
                file: error.span.id().map(lib_id_of),
                range: world.range(error.span).map(|r| (r.start, r.end)),
            },
            message: error.message.to_string(),
            trace: error
                .trace
                .iter()
                .map(|point| TracePoint {
                    span: SpanInfo {
                        file: point.span.id().map(lib_id_of),
                        range: world.range(point.span).map(|r| (r.start, r.end)),
                    },
                    message: point.v.to_string(),
                })
                .collect(),
        });
    }
    let (start, end) = match diags[0].span.range {
        Some(range) => range,
        None => panic!("the diagnostic must carry a resolved range"),
    };
    assert_eq!((start, end), (1, 4));
    let msg = world.inner.borrow().format_diagnostics(&diags).unwrap();
    assert!(msg.starts_with("compile error:\n"));
    // The formatted message carries the exact resolved offsets.
    assert!(msg.contains(&format!("{}:{} ", start, end)));
    assert!(msg.contains("unknown variable: xyz"));
}
