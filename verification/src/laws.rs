use vstd::prelude::*;
use crate::fonts::FontSlotView;
use crate::fonts::font_count_of;
use crate::fonts::spec_file_slots;
use crate::sources::UnitView;
use crate::sources::spec_find;
use crate::world::PathEntryView;
use crate::world::SlotView;
use crate::world::lemma_hash_skip;
use crate::world::lemma_slot_skip;
use crate::world::spec_hash_index;
use crate::world::spec_hash_insert;
use crate::world::spec_hash_lookup;
use crate::world::spec_slot_index;
use crate::world::spec_slot_post;

verus! {

/// Where the cache scan finds a key, nothing before that position carries
/// the key; where it finds none, no position does.
pub proof fn lemma_hash_index_prefix(hs: Seq<PathEntryView>, key: Seq<char>)
    ensures
        (match spec_hash_index(hs, key) {
            Some(i) => 0 <= i < hs.len() && hs[i].key == key && forall|j: int|
                0 <= j < i ==> hs[j].key != key,
            None => forall|j: int| 0 <= j < hs.len() ==> hs[j].key != key,
        }),
    decreases hs.len(),
{
    if hs.len() > 0 && hs.first().key != key {
        lemma_hash_index_prefix(hs.drop_first(), key);
        assert(hs.drop_first() =~= hs.skip(1));
        match spec_hash_index(hs.skip(1), key) {
            Some(i) => {
                assert(hs[i + 1] == hs.skip(1)[i]);
                assert forall|j: int| 0 <= j < i + 1 implies hs[j].key != key by {
                    if j > 0 {
                        assert(hs.skip(1)[j - 1] == hs[j]);
                    }
                }
            },
            None => {
                assert forall|j: int| 0 <= j < hs.len() implies hs[j].key != key by {
                    if j > 0 {
                        assert(hs.skip(1)[j - 1] == hs[j]);
                    }
                }
            },
        }
    }
}

/// Memoization of path resolution: once an outcome is recorded under a key,
/// looking the key up yields exactly that outcome — so a repeated resolution
/// of one path sees the cached result, whatever a fresh probe would say.
pub proof fn lemma_cache_memoizes(
    hs: Seq<PathEntryView>,
    key: Seq<char>,
    outcome: Result<u128, crate::errors::FileError>,
)
    ensures
        spec_hash_lookup(spec_hash_insert(hs, key, outcome), key) == Some(outcome),
{
    let hs1 = spec_hash_insert(hs, key, outcome);
    lemma_hash_index_prefix(hs, key);
    match spec_hash_index(hs, key) {
        Some(i) => {
            assert forall|j: int| 0 <= j < i implies hs1[j].key != key by {
                assert(hs1[j] == hs[j]);
            }
            lemma_hash_skip(hs1, key, i);
            assert(hs1.skip(i).first() == hs1[i]);
        },
        None => {
            assert forall|j: int| 0 <= j < hs.len() implies hs1[j].key != key by {
                assert(hs1[j] == hs[j]);
            }
            lemma_hash_skip(hs1, key, hs.len() as int);
            assert(hs1.skip(hs.len() as int) =~= seq![hs1.last()]);
        },
    }
}

/// A slot table in which no identity is found holds no slot with that
/// identity at any position.
pub proof fn lemma_slot_index_none(slots: Seq<SlotView>, h: u128)
    requires
        spec_slot_index(slots, h) is None,
    ensures
        forall|j: int| 0 <= j < slots.len() ==> slots[j].identity != h,
    decreases slots.len(),
{
    if slots.len() > 0 {
        assert(slots.first().identity != h);
        assert(slots.drop_first() =~= slots.skip(1));
        lemma_slot_index_none(slots.skip(1), h);
        assert forall|j: int| 1 <= j < slots.len() implies slots[j].identity != h by {
            assert(slots.skip(1)[j - 1] == slots[j]);
        }
    }
}

/// Identity dedup: however a path was spelled, resolving an identity a second
/// time finds the very slot the first resolution left behind — the same
/// position, with the table unchanged — so all spellings of one filesystem
/// entity share one slot and each of its lazy cells is computed at most once.
pub proof fn lemma_identity_dedup(s0: Seq<SlotView>, s1: Seq<SlotView>, h: u128, i: int)
    requires
        spec_slot_post(s0, s1, h, i),
    ensures
        spec_slot_index(s1, h) == Some(i),
        spec_slot_post(s1, s1, h, i),
{
    match spec_slot_index(s0, h) {
        Some(j) => {
        },
        None => {
            lemma_slot_index_none(s0, h);
            assert forall|j: int| 0 <= j < s0.len() implies s1[j].identity != h by {
                assert(s1[j] == s0[j]);
            }
            lemma_slot_skip(s1, h, s0.len() as int);
            assert(s1.skip(s0.len() as int) =~= seq![s1.last()]);
            assert(s1.last().identity == h);
        },
    }
}

/// Appending an entry under a different key leaves a key's lookup unchanged.
proof fn lemma_lookup_push(
    hs: Seq<PathEntryView>,
    entry: PathEntryView,
    other: Seq<char>,
)
    requires
        entry.key != other,
    ensures
        spec_hash_lookup(hs.push(entry), other) == spec_hash_lookup(hs, other),
    decreases hs.len(),
{
    if hs.len() == 0 {
        assert(hs.push(entry).first() == entry);
        assert(hs.push(entry).drop_first() =~= Seq::<PathEntryView>::empty());
        assert(spec_hash_lookup(Seq::<PathEntryView>::empty(), other) is None);
        assert(spec_hash_lookup(hs.push(entry), other) is None);
    } else {
        assert(hs.push(entry).first() == hs.first());
        if hs.first().key != other {
            assert(hs.push(entry).drop_first() =~= hs.drop_first().push(entry));
            lemma_lookup_push(hs.drop_first(), entry, other);
            assert(spec_hash_lookup(hs.push(entry), other) == spec_hash_lookup(
                hs.drop_first().push(entry),
                other,
            ));
            assert(spec_hash_lookup(hs, other) == spec_hash_lookup(hs.drop_first(), other));
        } else {
            assert(spec_hash_lookup(hs.push(entry), other) == Some(hs.first().outcome));
            assert(spec_hash_lookup(hs, other) == Some(hs.first().outcome));
        }
    }
}

/// Overwriting an entry whose key is different leaves a key's lookup
/// unchanged.
proof fn lemma_lookup_update(
    hs: Seq<PathEntryView>,
    i: int,
    entry: PathEntryView,
    other: Seq<char>,
)
    requires
        0 <= i < hs.len(),
        entry.key != other,
        hs[i].key != other,
    ensures
        spec_hash_lookup(hs.update(i, entry), other) == spec_hash_lookup(hs, other),
    decreases hs.len(),
{
    if i == 0 {
        assert(hs.update(0, entry).first() == entry);
        assert(hs.update(0, entry).drop_first() =~= hs.drop_first());
    } else {
        assert(hs.update(i, entry).first() == hs.first());
        if hs.first().key != other {
            assert(hs.update(i, entry).drop_first() =~= hs.drop_first().update(i - 1, entry));
            lemma_lookup_update(hs.drop_first(), i - 1, entry, other);
        }
    }
}

/// Cache isolation: recording one path's outcome never changes what any
/// other path resolves to, so the spellings of distinct entities keep their
/// own cached outcomes.
pub proof fn lemma_cache_isolates_keys(
    hs: Seq<PathEntryView>,
    key: Seq<char>,
    outcome: Result<u128, crate::errors::FileError>,
    other: Seq<char>,
)
    requires
        other != key,
    ensures
        spec_hash_lookup(spec_hash_insert(hs, key, outcome), other) == spec_hash_lookup(
            hs,
            other,
        ),
{
    let entry = PathEntryView { key: key, outcome: outcome };
    lemma_hash_index_prefix(hs, key);
    match spec_hash_index(hs, key) {
        Some(i) => {
            lemma_lookup_update(hs, i, entry, other);
        },
        None => {
            lemma_lookup_push(hs, entry, other);
        },
    }
}

/// The compute-once step every memo cell in this crate follows, be it a
/// slot's source or byte cell or a font slot's decode cell: an empty cell is
/// filled with the newly computed outcome, and a filled cell hands its
/// memoized outcome back untouched.
pub open spec fn spec_cell_step<T>(cell: Option<T>, computed: T) -> (Option<T>, T) {
    match cell {
        Some(v) => (Some(v), v),
        None => (Some(computed), computed),
    }
}

/// Memoization: once a cell was computed, every later access returns the
/// first outcome — whatever a later computation would have produced — and
/// the cell never changes again.
pub proof fn lemma_memoized<T>(cell: Option<T>, c1: T, c2: T)
    ensures
        ({
            let first = spec_cell_step(cell, c1);
            let second = spec_cell_step(first.0, c2);
            second.0 == first.0 && second.1 == first.1
        }),
{
}

/// Reset isolation: right after a run begins, the registry holds exactly the
/// new main unit, so any identity of an earlier run — any identity but the
/// new main's — fails to resolve as a source.
pub proof fn lemma_reset_isolation(
    units: Seq<UnitView>,
    main_id: crate::file_id::IdView,
    text: Seq<char>,
    id: crate::file_id::IdView,
)
    requires
        units == Seq::<UnitView>::empty().push(UnitView { id: main_id, text: text }),
        id != main_id,
    ensures
        spec_find(units, id) is None,
{
    assert(units.len() == 1);
    assert(units.first() == (UnitView { id: main_id, text: text }));
    assert(units.first().id != id);
    assert(units.drop_first() =~= Seq::<UnitView>::empty());
    assert(spec_find(units.drop_first(), id) is None);
}

/// The catalog that a fixed list of probed files builds, file after file:
/// a function of the files' paths and bytes alone, so discovery over the
/// same files always assigns the same indices.
pub open spec fn spec_catalog_slots(events: Seq<(Seq<char>, Seq<u8>)>) -> Seq<FontSlotView>
    decreases events.len(),
{
    if events.len() == 0 {
        Seq::empty()
    } else {
        spec_catalog_slots(events.drop_last()) + spec_file_slots(
            events.last().0,
            font_count_of(events.last().1),
        )
    }
}

/// The total number of font records embedded across a list of probed files.
pub open spec fn spec_total_records(events: Seq<(Seq<char>, Seq<u8>)>) -> nat
    decreases events.len(),
{
    if events.len() == 0 {
        0
    } else {
        spec_total_records(events.drop_last()) + font_count_of(events.last().1)
    }
}

/// Font discovery determinism: the catalog built from a fixed list of files
/// has exactly one slot per embedded font record — its length is the total
/// record count — and every slot of a file carries that file's path and its
/// record's position, so index assignment is stable across runs.
pub proof fn lemma_catalog_deterministic(events: Seq<(Seq<char>, Seq<u8>)>)
    ensures
        spec_catalog_slots(events).len() == spec_total_records(events),
    decreases events.len(),
{
    if events.len() > 0 {
        lemma_catalog_deterministic(events.drop_last());
    }
}

} // verus!
