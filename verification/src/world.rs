use vstd::prelude::*;
use crate::errors::FileError;
use crate::file_id::FileId;
use crate::file_id::IdView;
use crate::fonts::FontCatalog;
use crate::identity::path_hash;
use crate::identity::sip128_of;
use crate::sources::SourceUnit;
use crate::sources::UnitView;
use crate::sources::lemma_find_skip;
use crate::sources::spec_find;

verus! {

/// One entry of the path-resolution cache: a raw path text and the identity
/// computation it resolved to, success or recorded failure alike.
pub struct PathEntry {
    /// The path text the entry is keyed by.
    pub key: String,
    /// The cached outcome of resolving that path.
    pub outcome: Result<u128, FileError>,
}

/// The mathematical shape of a path-cache entry.
#[verifier::ext_equal]
pub struct PathEntryView {
    pub key: Seq<char>,
    pub outcome: Result<u128, FileError>,
}

impl View for PathEntry {
    type V = PathEntryView;

    open spec fn view(&self) -> PathEntryView {
        PathEntryView { key: self.key@, outcome: self.outcome }
    }
}

impl DeepView for PathEntry {
    type V = PathEntryView;

    open spec fn deep_view(&self) -> PathEntryView {
        self.view()
    }
}

/// The resolved artifacts of one filesystem identity: two independent
/// compute-once cells, one for the identity's source file-id and one for its
/// raw bytes.  Each cell is `None` until its first computation and then holds
/// the memoized outcome, success or failure, for the rest of the run.
pub struct IdentitySlot {
    /// The identity the slot belongs to.
    pub identity: u128,
    /// The memoized source resolution, once one was attempted.
    pub source: Option<Result<FileId, FileError>>,
    /// The memoized byte resolution, once one was attempted.
    pub buffer: Option<Result<Vec<u8>, FileError>>,
}

/// The mathematical shape of an identity slot.
#[verifier::ext_equal]
pub struct SlotView {
    pub identity: u128,
    pub source: Option<Result<IdView, FileError>>,
    pub buffer: Option<Result<Seq<u8>, FileError>>,
}

/// The mathematical shape of a source cell.
pub open spec fn source_cell_view(c: Option<Result<FileId, FileError>>) -> Option<
    Result<IdView, FileError>,
> {
    match c {
        None => None,
        Some(Ok(id)) => Some(Ok(id@)),
        Some(Err(e)) => Some(Err(e)),
    }
}

/// The mathematical shape of a byte cell.
pub open spec fn buffer_cell_view(c: Option<Result<Vec<u8>, FileError>>) -> Option<
    Result<Seq<u8>, FileError>,
> {
    match c {
        None => None,
        Some(Ok(v)) => Some(Ok(v@)),
        Some(Err(e)) => Some(Err(e)),
    }
}

impl View for IdentitySlot {
    type V = SlotView;

    open spec fn view(&self) -> SlotView {
        SlotView {
            identity: self.identity,
            source: source_cell_view(self.source),
            buffer: buffer_cell_view(self.buffer),
        }
    }
}

impl DeepView for IdentitySlot {
    type V = SlotView;

    open spec fn deep_view(&self) -> SlotView {
        self.view()
    }
}

/// The first cached outcome under the given key, if any.
pub open spec fn spec_hash_lookup(hs: Seq<PathEntryView>, key: Seq<char>) -> Option<
    Result<u128, FileError>,
>
    decreases hs.len(),
{
    if hs.len() == 0 {
        None
    } else if hs.first().key == key {
        Some(hs.first().outcome)
    } else {
        spec_hash_lookup(hs.drop_first(), key)
    }
}

/// The position of the first cached entry under the given key, if any.
pub open spec fn spec_hash_index(hs: Seq<PathEntryView>, key: Seq<char>) -> Option<int>
    decreases hs.len(),
{
    if hs.len() == 0 {
        None
    } else if hs.first().key == key {
        Some(0)
    } else {
        match spec_hash_index(hs.drop_first(), key) {
            None => None,
            Some(i) => Some(i + 1),
        }
    }
}

/// The cache after recording an outcome under a key: the existing entry is
/// overwritten, or a new entry is appended.
pub open spec fn spec_hash_insert(
    hs: Seq<PathEntryView>,
    key: Seq<char>,
    outcome: Result<u128, FileError>,
) -> Seq<PathEntryView> {
    match spec_hash_index(hs, key) {
        Some(i) => hs.update(i, (PathEntryView { key: key, outcome: outcome })),
        None => hs.push(PathEntryView { key: key, outcome: outcome }),
    }
}

/// The position of the slot holding the given identity, if one exists.
pub open spec fn spec_slot_index(slots: Seq<SlotView>, h: u128) -> Option<int>
    decreases slots.len(),
{
    if slots.len() == 0 {
        None
    } else if slots.first().identity == h {
        Some(0)
    } else {
        match spec_slot_index(slots.drop_first(), h) {
            None => None,
            Some(i) => Some(i + 1),
        }
    }
}

/// The identity that a fresh probe of a path yields: the fixed-seed hash of
/// the opened handle's key on success, the classified failure otherwise.
pub open spec fn spec_probe_outcome(probe: Result<(u64, u64), FileError>) -> Result<
    u128,
    FileError,
> {
    match probe {
        Ok(p) => Ok(sip128_of(p.0, p.1)),
        Err(e) => Err(e),
    }
}

/// A scan that passed `k` entries without a key match finds what the scan of
/// the rest finds, and at a position shifted by `k`.
pub proof fn lemma_hash_skip(hs: Seq<PathEntryView>, key: Seq<char>, k: int)
    requires
        0 <= k <= hs.len(),
        forall|j: int| 0 <= j < k ==> hs[j].key != key,
    ensures
        spec_hash_lookup(hs, key) == spec_hash_lookup(hs.skip(k), key),
        spec_hash_index(hs, key) == (match spec_hash_index(hs.skip(k), key) {
            None => None::<int>,
            Some(i) => Some(i + k),
        }),
    decreases k,
{
    if k > 0 {
        assert(hs.first().key != key);
        assert(hs.drop_first() =~= hs.skip(1));
        lemma_hash_skip(hs.skip(1), key, k - 1);
        assert(hs.skip(1).skip(k - 1) =~= hs.skip(k));
    } else {
        assert(hs.skip(0) =~= hs);
    }
}

/// The same shift property for the slot table, scanned by identity.
pub proof fn lemma_slot_skip(slots: Seq<SlotView>, h: u128, k: int)
    requires
        0 <= k <= slots.len(),
        forall|j: int| 0 <= j < k ==> slots[j].identity != h,
    ensures
        spec_slot_index(slots, h) == (match spec_slot_index(slots.skip(k), h) {
            None => None::<int>,
            Some(i) => Some(i + k),
        }),
    decreases k,
{
    if k > 0 {
        assert(slots.first().identity != h);
        assert(slots.drop_first() =~= slots.skip(1));
        lemma_slot_skip(slots.skip(1), h, k - 1);
        assert(slots.skip(1).skip(k - 1) =~= slots.skip(k));
    } else {
        assert(slots.skip(0) =~= slots);
    }
}

/// What finding-or-creating the slot of an identity leaves behind: either
/// the identity already had a slot — then that slot's position is returned
/// and the table is untouched — or an empty slot for it is appended.
pub open spec fn spec_slot_post(oldsl: Seq<SlotView>, newsl: Seq<SlotView>, h: u128, i: int) -> bool {
    &&& (match spec_slot_index(oldsl, h) {
        Some(j) => i == j && newsl == oldsl,
        None => i == oldsl.len() && newsl == oldsl.push(
            SlotView { identity: h, source: None, buffer: None },
        ),
    })
    &&& 0 <= i < newsl.len()
    &&& newsl[i].identity == h
}

/// The resolution layer and aggregate root: the font catalog, the two cache
/// layers, the source registry and the active main document.  The catalog is
/// process-lifetime; everything else is cleared when a compile run begins.
pub struct World {
    /// The root path the world was constructed at.
    pub root: String,
    /// The font catalog with its metadata book, built once at construction.
    pub fonts: FontCatalog,
    /// The path-to-identity cache.
    pub hashes: Vec<PathEntry>,
    /// The identity-to-artifact cache.
    pub slots: Vec<IdentitySlot>,
    /// The append-only registry of sources of the current run.
    pub sources: Vec<SourceUnit>,
    /// The identity of the currently active main document, once one is set.
    pub main: Option<FileId>,
}

impl World {
    /// Well-formedness: the catalog is in lock-step, no two slots share an
    /// identity, and no two path-cache entries share a key.
    pub open spec fn wf(&self) -> bool {
        &&& self.fonts.wf()
        &&& forall|i: int, j: int|
            0 <= i < j < self.slots.deep_view().len() ==> self.slots.deep_view()[i].identity
                != self.slots.deep_view()[j].identity
        &&& forall|i: int, j: int|
            0 <= i < j < self.hashes.deep_view().len() ==> self.hashes.deep_view()[i].key
                != self.hashes.deep_view()[j].key
    }

    /// A fresh world over an already built font catalog, with empty caches,
    /// an empty registry and no main document.
    pub fn new(root: String, fonts: FontCatalog) -> (r: World)
        requires
            fonts.wf(),
        ensures
            r.wf(),
            r.root@ == root@,
            r.fonts == fonts,
            r.hashes.deep_view() == Seq::<PathEntryView>::empty(),
            r.slots.deep_view() == Seq::<SlotView>::empty(),
            r.sources.deep_view() == Seq::<UnitView>::empty(),
            r.main is None,
    {
        let r = World {
            root,
            fonts,
            hashes: Vec::new(),
            slots: Vec::new(),
            sources: Vec::new(),
            main: None,
        };
        proof {
            assert(r.hashes.deep_view() =~= Seq::<PathEntryView>::empty());
            assert(r.slots.deep_view() =~= Seq::<SlotView>::empty());
            assert(r.sources.deep_view() =~= Seq::<UnitView>::empty());
        }
        r
    }

    /// Registers a text under a virtual path: a fresh unit is appended to the
    /// registry — never replacing an existing one — and its identity is
    /// returned.
    pub fn insert(&mut self, vpath: &str, text: String) -> (id: FileId)
        ensures
            id@ == IdView::Virtual(vpath@),
            final(self).sources.deep_view() == old(self).sources.deep_view().push(
                (UnitView { id: id@, text: text@ }),
            ),
            final(self).root == old(self).root,
            final(self).fonts == old(self).fonts,
            final(self).hashes == old(self).hashes,
            final(self).slots == old(self).slots,
            final(self).main == old(self).main,
    {
        let id = FileId::Virtual(vpath.to_owned());
        let unit = SourceUnit { id: id.duplicate(), text };
        self.sources.push(unit);
        proof {
            assert(self.sources.deep_view() =~~= old(self).sources.deep_view().push(
                (UnitView { id: id@, text: self.sources@.last().text@ }),
            ));
        }
        id
    }

    /// Looks a registered source up by identity: the registry is scanned in
    /// registration order and the first unit whose identity matches is
    /// returned.  An identity no unit carries is `NotSource` — distinctly not
    /// an I/O failure.
    pub fn source(&self, id: &FileId) -> (r: Result<SourceUnit, FileError>)
        ensures
            (match spec_find(self.sources.deep_view(), id@) {
                Some(u) => r is Ok && r->Ok_0@ == u,
                None => r == Result::<SourceUnit, FileError>::Err(FileError::NotSource),
            }),
    {
        let ghost units = self.sources.deep_view();
        let n = self.sources.len();
        let mut i: usize = 0;
        while i < n
            invariant
                n == self.sources@.len(),
                i <= n,
                units == self.sources.deep_view(),
                forall|j: int| 0 <= j < i ==> units[j].id != id@,
            decreases n - i,
        {
            if self.sources[i].id.id_eq(id) {
                proof {
                    lemma_find_skip(units, id@, i as int);
                    assert(units.skip(i as int).first() == units[i as int]);
                }
                return Ok(self.sources[i].duplicate());
            }
            i += 1;
        }
        proof {
            lemma_find_skip(units, id@, n as int);
            assert(units.skip(n as int) =~= Seq::<UnitView>::empty());
        }
        Err(FileError::NotSource)
    }

    /// The raw bytes behind an identity: the registered source's text,
    /// re-exposed in its byte encoding.  Fails exactly where the source
    /// lookup fails.
    pub fn file(&self, id: &FileId) -> (r: Result<Vec<u8>, FileError>)
        ensures
            (match spec_find(self.sources.deep_view(), id@) {
                Some(u) => r is Ok && r->Ok_0@ == vstd::utf8::encode_utf8(u.text),
                None => r == Result::<Vec<u8>, FileError>::Err(FileError::NotSource),
            }),
    {
        match self.source(id) {
            Ok(unit) => Ok(vstd::slice::slice_to_vec(unit.text.as_str().as_bytes())),
            Err(e) => Err(e),
        }
    }

    /// The currently active main document, or `NotSource` while none is set.
    pub fn main_source(&self) -> (r: Result<SourceUnit, FileError>)
        ensures
            (match self.main {
                Some(m) => (match spec_find(self.sources.deep_view(), m@) {
                    Some(u) => r is Ok && r->Ok_0@ == u,
                    None => r == Result::<SourceUnit, FileError>::Err(FileError::NotSource),
                }),
                None => r == Result::<SourceUnit, FileError>::Err(FileError::NotSource),
            }),
    {
        match &self.main {
            Some(m) => self.source(m),
            None => Err(FileError::NotSource),
        }
    }

    /// Clears everything a compile run may have left behind: the registry and
    /// both cache layers.  The font catalog and book are process-lifetime and
    /// are never cleared; the main document stays until the next run sets its
    /// own.
    pub fn reset(&mut self)
        ensures
            final(self).sources.deep_view() == Seq::<UnitView>::empty(),
            final(self).hashes.deep_view() == Seq::<PathEntryView>::empty(),
            final(self).slots.deep_view() == Seq::<SlotView>::empty(),
            final(self).root == old(self).root,
            final(self).fonts == old(self).fonts,
            final(self).main == old(self).main,
    {
        self.sources = Vec::new();
        self.hashes = Vec::new();
        self.slots = Vec::new();
        proof {
            assert(self.sources.deep_view() =~= Seq::<UnitView>::empty());
            assert(self.hashes.deep_view() =~= Seq::<PathEntryView>::empty());
            assert(self.slots.deep_view() =~= Seq::<SlotView>::empty());
        }
    }

    /// Opens a compile run: unconditionally resets all per-run state —
    /// whatever the previous run left — registers the markup under the fixed
    /// virtual filename, and makes it the main document.
    pub fn begin_compile(&mut self, markup: String) -> (id: FileId)
        requires
            old(self).wf(),
        ensures
            final(self).wf(),
            id@ == IdView::Virtual("MARKUP.tsp"@),
            final(self).sources.deep_view() == Seq::<UnitView>::empty().push(
                (UnitView { id: id@, text: markup@ }),
            ),
            final(self).hashes.deep_view() == Seq::<PathEntryView>::empty(),
            final(self).slots.deep_view() == Seq::<SlotView>::empty(),
            final(self).main matches Some(m) && m@ == id@,
            final(self).root == old(self).root,
            final(self).fonts == old(self).fonts,
    {
        self.reset();
        let id = self.insert("MARKUP.tsp", markup);
        self.main = Some(id.duplicate());
        id
    }

    /// The cached identity outcome under a path text, if the path was
    /// already resolved in this run.
    fn hash_cached(&self, path: &String) -> (r: Option<Result<u128, FileError>>)
        ensures
            r == spec_hash_lookup(self.hashes.deep_view(), path@),
    {
        let ghost hs = self.hashes.deep_view();
        let n = self.hashes.len();
        let mut i: usize = 0;
        while i < n
            invariant
                n == self.hashes@.len(),
                i <= n,
                hs == self.hashes.deep_view(),
                forall|j: int| 0 <= j < i ==> hs[j].key != path@,
            decreases n - i,
        {
            if self.hashes[i].key.eq(path) {
                proof {
                    lemma_hash_skip(hs, path@, i as int);
                    assert(hs.skip(i as int).first() == hs[i as int]);
                }
                return Some(self.hashes[i].outcome);
            }
            i += 1;
        }
        proof {
            lemma_hash_skip(hs, path@, n as int);
            assert(hs.skip(n as int) =~= Seq::<PathEntryView>::empty());
        }
        None
    }

    /// Records an identity outcome under a path text: an existing entry for
    /// the key is overwritten, any other key is untouched, and a new key is
    /// appended.
    fn hash_insert(&mut self, key: &String, outcome: Result<u128, FileError>)
        requires
            old(self).wf(),
        ensures
            final(self).wf(),
            final(self).hashes.deep_view() == spec_hash_insert(
                old(self).hashes.deep_view(),
                key@,
                outcome,
            ),
            final(self).root == old(self).root,
            final(self).fonts == old(self).fonts,
            final(self).slots == old(self).slots,
            final(self).sources == old(self).sources,
            final(self).main == old(self).main,
    {
        let ghost hs = self.hashes.deep_view();
        let n = self.hashes.len();
        let mut i: usize = 0;
        while i < n
            invariant
                n == self.hashes@.len(),
                i <= n,
                old(self).wf(),
                hs == self.hashes.deep_view(),
                self == old(self),
                forall|j: int| 0 <= j < i ==> hs[j].key != key@,
            decreases n - i,
        {
            if self.hashes[i].key.eq(key) {
                proof {
                    lemma_hash_skip(hs, key@, i as int);
                    assert(hs.skip(i as int).first() == hs[i as int]);
                }
                self.hashes[i].outcome = outcome;
                proof {
                    assert(self.hashes.deep_view() =~~= hs.update(
                        i as int,
                        (PathEntryView { key: key@, outcome: outcome }),
                    ));
                    assert forall|a: int, b: int|
                        0 <= a < b < self.hashes.deep_view().len() implies self.hashes.deep_view()[a].key
                        != self.hashes.deep_view()[b].key by {
                        assert(self.hashes.deep_view()[a].key == hs[a].key);
                        assert(self.hashes.deep_view()[b].key == hs[b].key);
                    }
                }
                return ;
            }
            i += 1;
        }
        proof {
            lemma_hash_skip(hs, key@, n as int);
            assert(hs.skip(n as int) =~= Seq::<PathEntryView>::empty());
        }
        self.hashes.push(PathEntry { key: key.clone(), outcome });
        proof {
            assert(self.hashes.deep_view() =~~= hs.push(
                (PathEntryView { key: key@, outcome: outcome }),
            ));
            assert forall|a: int, b: int|
                0 <= a < b < self.hashes.deep_view().len() implies self.hashes.deep_view()[a].key
                != self.hashes.deep_view()[b].key by {
                if b < hs.len() {
                    assert(self.hashes.deep_view()[a].key == hs[a].key);
                    assert(self.hashes.deep_view()[b].key == hs[b].key);
                } else {
                    assert(self.hashes.deep_view()[a].key == hs[a].key);
                    assert(self.hashes.deep_view()[b].key == key@);
                }
            }
        }
    }

    /// The slot of an identity: an existing slot is found — never duplicated
    /// — and a first reference default-creates an empty slot.  Every path
    /// that resolves to this identity shares the slot this returns.
    pub fn slot_index(&mut self, h: u128) -> (i: usize)
        requires
            old(self).wf(),
        ensures
            final(self).wf(),
            spec_slot_post(
                old(self).slots.deep_view(),
                final(self).slots.deep_view(),
                h,
                i as int,
            ),
            (final(self).slots == old(self).slots) == (spec_slot_index(
                old(self).slots.deep_view(),
                h,
            ) is Some),
            final(self).root == old(self).root,
            final(self).fonts == old(self).fonts,
            final(self).hashes == old(self).hashes,
            final(self).sources == old(self).sources,
            final(self).main == old(self).main,
    {
        let ghost sl = self.slots.deep_view();
        let n = self.slots.len();
        let mut i: usize = 0;
        while i < n
            invariant
                n == self.slots@.len(),
                i <= n,
                old(self).wf(),
                sl == self.slots.deep_view(),
                self == old(self),
                forall|j: int| 0 <= j < i ==> sl[j].identity != h,
            decreases n - i,
        {
            if self.slots[i].identity == h {
                proof {
                    lemma_slot_skip(sl, h, i as int);
                    assert(sl.skip(i as int).first() == sl[i as int]);
                }
                return i;
            }
            i += 1;
        }
        proof {
            lemma_slot_skip(sl, h, n as int);
            assert(sl.skip(n as int) =~= Seq::<SlotView>::empty());
        }
        self.slots.push(IdentitySlot { identity: h, source: None, buffer: None });
        proof {
            assert(self.slots.deep_view() =~~= sl.push(
                (SlotView { identity: h, source: None, buffer: None }),
            ));
            assert forall|a: int, b: int|
                0 <= a < b < self.slots.deep_view().len() implies self.slots.deep_view()[a].identity
                != self.slots.deep_view()[b].identity by {
                if b < sl.len() {
                    assert(self.slots.deep_view()[a].identity == sl[a].identity);
                    assert(self.slots.deep_view()[b].identity == sl[b].identity);
                } else {
                    assert(self.slots.deep_view()[a].identity == sl[a].identity);
                    assert(self.slots.deep_view()[b].identity == h);
                }
            }
        }
        n
    }

    /// Resolves a path to its identity slot.  A cached resolution — under
    /// this exact text — is reused without touching the filesystem again;
    /// otherwise the given probe of the path's file handle decides, and the
    /// outcome, failure included, is cached under the path text and, when a
    /// distinct canonical spelling is known, under that spelling too.  On
    /// success the identity's slot is found or default-created, so every
    /// spelling of one entity shares one slot.
    pub fn slot_for(
        &mut self,
        path: &String,
        probe: Result<(u64, u64), FileError>,
        canon: Option<String>,
    ) -> (r: Result<usize, FileError>)
        requires
            old(self).wf(),
        ensures
            final(self).wf(),
            ({
                let cached = spec_hash_lookup(old(self).hashes.deep_view(), path@);
                let eff = (match cached {
                    Some(o) => o,
                    None => spec_probe_outcome(probe),
                });
                let hs1 = (match cached {
                    Some(o) => old(self).hashes.deep_view(),
                    None => (match canon {
                        Some(c) => spec_hash_insert(
                            spec_hash_insert(old(self).hashes.deep_view(), c@, eff),
                            path@,
                            eff,
                        ),
                        None => spec_hash_insert(old(self).hashes.deep_view(), path@, eff),
                    }),
                });
                &&& final(self).hashes.deep_view() == hs1
                &&& (match eff {
                    Err(e) => r == Result::<usize, FileError>::Err(e) && final(self).slots
                        == old(self).slots,
                    Ok(h) => r matches Ok(i) && spec_slot_post(
                        old(self).slots.deep_view(),
                        final(self).slots.deep_view(),
                        h,
                        i as int,
                    ),
                })
            }),
            final(self).root == old(self).root,
            final(self).fonts == old(self).fonts,
            final(self).sources == old(self).sources,
            final(self).main == old(self).main,
    {
        let cached = self.hash_cached(path);
        let outcome = match cached {
            Some(o) => o,
            None => {
                let o = match probe {
                    Ok(p) => Ok(path_hash(p.0, p.1)),
                    Err(e) => Err(e),
                };
                if let Some(c) = &canon {
                    self.hash_insert(c, o);
                }
                self.hash_insert(path, o);
                o
            },
        };
        match outcome {
            Ok(h) => Ok(self.slot_index(h)),
            Err(e) => Err(e),
        }
    }

    /// The source cell of a slot as it stands: nothing before the first
    /// computation, afterwards the memoized outcome.  Reading never changes
    /// the world.
    pub fn slot_source_get(&self, i: usize) -> (r: Option<Result<FileId, FileError>>)
        requires
            i < self.slots.deep_view().len(),
        ensures
            source_cell_view(r) == self.slots.deep_view()[i as int].source,
    {
        match &self.slots[i].source {
            None => None,
            Some(Ok(id)) => Some(Ok(id.duplicate())),
            Some(Err(e)) => Some(Err(*e)),
        }
    }

    /// First computation of a slot's source cell: the outcome is memoized for
    /// the rest of the run.  The cell must still be empty, so the computation
    /// is paid at most once per identity.
    pub fn slot_source_fill(&mut self, i: usize, outcome: Result<FileId, FileError>)
        requires
            old(self).wf(),
            i < old(self).slots.deep_view().len(),
            old(self).slots.deep_view()[i as int].source is None,
        ensures
            final(self).wf(),
            final(self).slots.deep_view() == old(self).slots.deep_view().update(
                i as int,
                (SlotView {
                    source: source_cell_view(Some(outcome)),
                    ..old(self).slots.deep_view()[i as int]
                }),
            ),
            final(self).root == old(self).root,
            final(self).fonts == old(self).fonts,
            final(self).hashes == old(self).hashes,
            final(self).sources == old(self).sources,
            final(self).main == old(self).main,
    {
        self.slots[i].source = Some(outcome);
        proof {
            assert(self.slots.deep_view() =~~= old(self).slots.deep_view().update(
                i as int,
                (SlotView {
                    source: source_cell_view(self.slots@[i as int].source),
                    ..old(self).slots.deep_view()[i as int]
                }),
            ));
        }
    }

    /// The byte cell of a slot as it stands; reading never changes the world.
    pub fn slot_buffer_get(&self, i: usize) -> (r: Option<Result<Vec<u8>, FileError>>)
        requires
            i < self.slots.deep_view().len(),
        ensures
            buffer_cell_view(r) == self.slots.deep_view()[i as int].buffer,
    {
        match &self.slots[i].buffer {
            None => None,
            Some(Ok(v)) => Some(Ok(vstd::slice::slice_to_vec(v.as_slice()))),
            Some(Err(e)) => Some(Err(*e)),
        }
    }

    /// First computation of a slot's byte cell: the outcome is memoized for
    /// the rest of the run.  The cell must still be empty.
    pub fn slot_buffer_fill(&mut self, i: usize, outcome: Result<Vec<u8>, FileError>)
        requires
            old(self).wf(),
            i < old(self).slots.deep_view().len(),
            old(self).slots.deep_view()[i as int].buffer is None,
        ensures
            final(self).wf(),
            final(self).slots.deep_view() == old(self).slots.deep_view().update(
                i as int,
                (SlotView {
                    buffer: buffer_cell_view(Some(outcome)),
                    ..old(self).slots.deep_view()[i as int]
                }),
            ),
            final(self).root == old(self).root,
            final(self).fonts == old(self).fonts,
            final(self).hashes == old(self).hashes,
            final(self).sources == old(self).sources,
            final(self).main == old(self).main,
    {
        let ghost target = buffer_cell_view(Some(outcome));
        self.slots[i].buffer = Some(outcome);
        proof {
            assert(self.slots.deep_view() =~~= old(self).slots.deep_view().update(
                i as int,
                (SlotView { buffer: target, ..old(self).slots.deep_view()[i as int] }),
            ));
        }
    }
}

} // verus!
