use vstd::prelude::*;
use crate::file_id::FileId;
use crate::file_id::IdView;

verus! {

/// One parsed compile unit: its identity and its full text.  A unit is
/// immutable once registered; the registry only ever appends.
pub struct SourceUnit {
    /// The identity the unit was registered under.
    pub id: FileId,
    /// The unit's full text.
    pub text: String,
}

/// The mathematical shape of a registered unit.
#[verifier::ext_equal]
pub struct UnitView {
    pub id: IdView,
    pub text: Seq<char>,
}

impl View for SourceUnit {
    type V = UnitView;

    open spec fn view(&self) -> UnitView {
        UnitView { id: self.id@, text: self.text@ }
    }
}

impl DeepView for SourceUnit {
    type V = UnitView;

    open spec fn deep_view(&self) -> UnitView {
        self.view()
    }
}

impl SourceUnit {
    /// An identical copy of this unit.
    pub fn duplicate(&self) -> (r: SourceUnit)
        ensures
            r@ == self@,
    {
        SourceUnit { id: self.id.duplicate(), text: self.text.clone() }
    }
}

/// The first registered unit carrying the given identity, if any: the
/// registry is scanned front to back and the first match wins.
pub open spec fn spec_find(units: Seq<UnitView>, id: IdView) -> Option<UnitView>
    decreases units.len(),
{
    if units.len() == 0 {
        None
    } else if units.first().id == id {
        Some(units.first())
    } else {
        spec_find(units.drop_first(), id)
    }
}

/// If no unit among the first `k` carries the identity, the scan of the whole
/// registry and the scan of the rest find the same unit.
pub proof fn lemma_find_skip(units: Seq<UnitView>, id: IdView, k: int)
    requires
        0 <= k <= units.len(),
        forall|j: int| 0 <= j < k ==> units[j].id != id,
    ensures
        spec_find(units, id) == spec_find(units.skip(k), id),
    decreases k,
{
    if k > 0 {
        assert(units.first().id != id);
        assert(units.drop_first() =~= units.skip(1));
        lemma_find_skip(units.skip(1), id, k - 1);
        assert(units.skip(1).skip(k - 1) =~= units.skip(k));
    } else {
        assert(units.skip(0) =~= units);
    }
}

} // verus!
