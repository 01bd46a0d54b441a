use vstd::prelude::*;

verus! {

#[verifier::external_type_specification]
#[verifier::external_body]
pub struct ExFont(typst::text::Font);

#[verifier::external_type_specification]
#[verifier::external_body]
pub struct ExFontInfo(typst::text::FontInfo);

#[verifier::external_type_specification]
#[verifier::external_body]
pub struct ExFontBook(typst::text::FontBook);

/// How many metadata entries a font book holds.
pub uninterp spec fn book_count(book: typst::text::FontBook) -> nat;

/// How many font records are embedded in a byte buffer; a function of the
/// bytes alone, so probing the same bytes twice finds the same records.
pub uninterp spec fn font_count_of(data: Seq<u8>) -> nat;

/// Whether the record at the given index of a byte buffer decodes to a font;
/// a function of the bytes and the index alone, so a failed decode stays
/// failed on every retry.
pub uninterp spec fn decodes_of(data: Seq<u8>, index: nat) -> bool;

/// Relies on typst's `FontBook::new`: a book with no entries.
#[verifier::external_body]
fn book_new() -> (r: typst::text::FontBook)
    ensures
        book_count(r) == 0,
{
    typst::text::FontBook::new()
}

/// Relies on typst's `FontBook::push`: appends exactly one metadata entry.
#[verifier::external_body]
fn book_push(book: &mut typst::text::FontBook, info: typst::text::FontInfo)
    ensures
        book_count(*final(book)) == book_count(*old(book)) + 1,
{
    book.push(info)
}

/// Relies on typst's `FontInfo::iter`: the metadata records embedded in the
/// bytes, one per sub-font, in the file's own order; a function of the bytes
/// alone.  Unparseable bytes yield no records.
#[verifier::external_body]
fn probe_font_infos(data: &[u8]) -> (r: Vec<typst::text::FontInfo>)
    ensures
        r@.len() == font_count_of(data@),
{
    typst::text::FontInfo::iter(data).collect()
}

/// Relies on typst's `Font::new`: decodes the sub-font at the given index of
/// the bytes, or yields nothing; the outcome depends on the bytes and the
/// index alone.  An index beyond the format's 32-bit record space decodes to
/// nothing.
#[verifier::external_body]
fn decode_font_record(data: Vec<u8>, index: usize) -> (r: Option<typst::text::Font>)
    ensures
        r is Some <==> decodes_of(data@, index as nat),
{
    match u32::try_from(index) {
        Ok(i) => typst::text::Font::new(typst::foundations::Bytes::from(data), i),
        Err(_) => None,
    }
}

/// Relies on `Font`'s derived `Clone`: the copy is the same font (the type is
/// a cheaply cloned shared handle).
pub assume_specification[ <typst::text::Font as Clone>::clone ](
    font: &typst::text::Font,
) -> (r: typst::text::Font)
    ensures
        r == *font,
;

/// A byte lowered into ASCII lower case: the letters `A` (65) through `Z`
/// (90) move down by 32, everything else stays.
pub open spec fn spec_lower(b: u8) -> u8 {
    if 65 <= b && b <= 90 {
        (b + 32) as u8
    } else {
        b
    }
}

/// Whether a file-name extension, given as its bytes, names a recognized
/// font file: `ttf` (116 116 102), `otf` (111 116 102) or their collection
/// variants `ttc` and `otc` (ending in 99), compared case-insensitively.
pub open spec fn spec_is_font_ext(s: Seq<u8>) -> bool {
    s.len() == 3 && {
        let a = spec_lower(s[0]);
        let b = spec_lower(s[1]);
        let c = spec_lower(s[2]);
        (b == 116 && (c == 102 || c == 99) && (a == 116 || a == 111))
    }
}

fn lower_byte(b: u8) -> (r: u8)
    ensures
        r == spec_lower(b),
{
    if 65 <= b && b <= 90 {
        b + 32
    } else {
        b
    }
}

/// The candidate filter of the directory search: only files whose extension
/// is one of the recognized font extensions, case-insensitively, are probed.
pub fn is_font_extension(ext: &[u8]) -> (r: bool)
    ensures
        r == spec_is_font_ext(ext@),
{
    if ext.len() != 3 {
        return false;
    }
    let a = lower_byte(ext[0]);
    let b = lower_byte(ext[1]);
    let c = lower_byte(ext[2]);
    b == 116 && (c == 102 || c == 99) && (a == 116 || a == 111)
}

/// The fixed configuration table of system font directories searched on this
/// platform, in search order.  Per-user additions come from the environment
/// and are appended by the caller.
pub fn system_font_dirs() -> (r: Vec<String>)
    ensures
        r@.len() == 2,
        r@[0]@ == "/usr/share/fonts"@,
        r@[1]@ == "/usr/local/share/fonts"@,
{
    let mut dirs: Vec<String> = Vec::new();
    dirs.push("/usr/share/fonts".to_owned());
    dirs.push("/usr/local/share/fonts".to_owned());
    dirs
}

/// The location of one logical font and, lazily, the decoded font itself.
/// The outer `Option` of the cell is the compute-once state: it is filled at
/// most once, and an inner `None` records a decode that failed, so the
/// failure is never retried.
pub struct FontSlot {
    /// The file the font lives in.
    pub path: String,
    /// The record index inside that file, for collection formats.
    pub index: usize,
    /// The decode outcome, once one exists.
    pub cell: Option<Option<typst::text::Font>>,
}

/// The mathematical shape of a font slot.
#[verifier::ext_equal]
pub struct FontSlotView {
    pub path: Seq<char>,
    pub index: usize,
    pub cell: Option<Option<typst::text::Font>>,
}

impl View for FontSlot {
    type V = FontSlotView;

    open spec fn view(&self) -> FontSlotView {
        FontSlotView { path: self.path@, index: self.index, cell: self.cell }
    }
}

impl DeepView for FontSlot {
    type V = FontSlotView;

    open spec fn deep_view(&self) -> FontSlotView {
        self.view()
    }
}

/// The slots that one file with the given number of records contributes: one
/// per record, in record order, with an empty decode cell.
pub open spec fn spec_file_slots(path: Seq<char>, count: nat) -> Seq<FontSlotView> {
    Seq::new(count, |i: int| FontSlotView { path: path, index: i as usize, cell: None })
}

/// An ordered catalog of discovered fonts with its parallel metadata book.
/// Catalog entry `i` always corresponds to book entry `i`: the two grow in
/// lock-step and nothing is ever removed.
pub struct FontCatalog {
    /// The compiler-facing metadata book.
    pub book: typst::text::FontBook,
    /// One slot per discovered font record, in discovery order.
    pub slots: Vec<FontSlot>,
}

impl FontCatalog {
    /// The lock-step invariant: the book has exactly one entry per slot.
    pub open spec fn wf(&self) -> bool {
        book_count(self.book) == self.slots.deep_view().len()
    }

    /// An empty catalog.
    pub fn new() -> (r: FontCatalog)
        ensures
            r.wf(),
            r.slots.deep_view() == Seq::<FontSlotView>::empty(),
    {
        let r = FontCatalog { book: book_new(), slots: Vec::new() };
        proof {
            assert(r.slots.deep_view() =~~= Seq::<FontSlotView>::empty());
        }
        r
    }

    /// Probes one candidate file's bytes and appends every embedded font
    /// record: one catalog slot and one book entry per record, the slot
    /// carrying the file's path and the record's index, the decode cell
    /// empty.  Bytes with no records add nothing; they are skipped, not an
    /// error.
    pub fn add_file(&mut self, path: &String, data: &[u8])
        requires
            old(self).wf(),
        ensures
            final(self).wf(),
            final(self).slots.deep_view() == old(self).slots.deep_view() + spec_file_slots(
                path@,
                font_count_of(data@),
            ),
    {
        let ghost orig = self.slots.deep_view();
        let ghost count = font_count_of(data@);
        let ghost orig_len = self.slots@.len();
        proof {
            assert(orig.len() == orig_len);
        }
        let mut infos = probe_font_infos(data);
        let total = infos.len();
        let mut i: usize = 0;
        while i < total
            invariant
                i <= total,
                infos@.len() == total - i,
                count == total as nat,
                book_count(self.book) == book_count(old(self).book) + i as nat,
                book_count(old(self).book) == orig_len as nat,
                orig == old(self).slots.deep_view(),
                orig.len() == orig_len,
                self.slots@.len() == orig_len + i,
                forall|j: int| 0 <= j < orig_len ==> self.slots@[j] == old(self).slots@[j],
                forall|j: int|
                    orig_len <= j < orig_len + i ==> #[trigger] self.slots@[j]@ == (FontSlotView {
                        path: path@,
                        index: (j - orig_len) as usize,
                        cell: None,
                    }),
            decreases total - i,
        {
            let info = infos.remove(0);
            book_push(&mut self.book, info);
            self.slots.push(FontSlot { path: path.clone(), index: i, cell: None });
            i = i + 1;
        }
        proof {
            assert(self.slots.deep_view() =~~= orig + spec_file_slots(path@, count));
        }
    }

    /// Where the font behind a catalog index lives: the file's path and the
    /// record index inside it.
    pub fn location(&self, index: usize) -> (r: (String, usize))
        requires
            index < self.slots.deep_view().len(),
        ensures
            r.0@ == self.slots.deep_view()[index as int].path,
            r.1 == self.slots.deep_view()[index as int].index,
    {
        let slot = &self.slots[index];
        (slot.path.clone(), slot.index)
    }

    /// The decode cell of a slot as it stands: nothing if no decode was
    /// attempted yet, otherwise the memoized outcome.  Reading never changes
    /// the catalog, so a cached outcome is returned without any new work.
    pub fn cached(&self, index: usize) -> (r: Option<Option<typst::text::Font>>)
        requires
            index < self.slots.deep_view().len(),
        ensures
            r == self.slots.deep_view()[index as int].cell,
    {
        match &self.slots[index].cell {
            None => None,
            Some(None) => Some(None),
            Some(Some(font)) => Some(Some(font.clone())),
        }
    }

    /// First decode of a slot, from the file's full bytes: decodes the
    /// record, fills the cell with the outcome, and returns it.  The cell
    /// must still be empty, so every slot is decoded at most once.
    pub fn load(&mut self, index: usize, data: Vec<u8>) -> (r: Option<typst::text::Font>)
        requires
            old(self).wf(),
            index < old(self).slots.deep_view().len(),
            old(self).slots.deep_view()[index as int].cell is None,
        ensures
            final(self).wf(),
            r is Some <==> decodes_of(data@, old(self).slots.deep_view()[index as int].index as nat),
            final(self).slots.deep_view() == old(self).slots.deep_view().update(
                index as int,
                (FontSlotView {
                    cell: Some(r),
                    ..old(self).slots.deep_view()[index as int]
                }),
            ),
    {
        let idx = self.slots[index].index;
        let outcome = decode_font_record(data, idx);
        let stored = match &outcome {
            None => None,
            Some(font) => Some(font.clone()),
        };
        self.slots[index].cell = Some(stored);
        proof {
            assert(self.slots.deep_view() =~= old(self).slots.deep_view().update(
                index as int,
                (FontSlotView {
                    cell: Some(outcome),
                    ..old(self).slots.deep_view()[index as int]
                }),
            ));
        }
        outcome
    }

    /// Records that the slot's file could not be read: the cell is filled
    /// with absence, so the failed read is never retried either.
    pub fn load_failed(&mut self, index: usize) -> (r: Option<typst::text::Font>)
        requires
            old(self).wf(),
            index < old(self).slots.deep_view().len(),
            old(self).slots.deep_view()[index as int].cell is None,
        ensures
            final(self).wf(),
            r is None,
            final(self).slots.deep_view() == old(self).slots.deep_view().update(
                index as int,
                (FontSlotView {
                    cell: Some(None),
                    ..old(self).slots.deep_view()[index as int]
                }),
            ),
    {
        self.slots[index].cell = Some(None);
        proof {
            assert(self.slots.deep_view() =~= old(self).slots.deep_view().update(
                index as int,
                (FontSlotView {
                    cell: Some(None),
                    ..old(self).slots.deep_view()[index as int]
                }),
            ));
        }
        None
    }
}

} // verus!
