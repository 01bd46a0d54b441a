use vstd::prelude::*;

verus! {

/// The identity of a compile unit: either a synthetic in-memory document
/// under a virtual path, or a filesystem entity under its resolved identity.
/// The two kinds share one identity space, so the registry and the caches
/// never care which kind they hold.
pub enum FileId {
    /// A synthetic document, tagged with its virtual path.
    Virtual(String),
    /// A filesystem entity, tagged with its handle-derived identity.
    Entity(u128),
}

/// The mathematical shape of a file identity.
pub enum IdView {
    Virtual(Seq<char>),
    Entity(u128),
}

impl View for FileId {
    type V = IdView;

    open spec fn view(&self) -> IdView {
        match self {
            FileId::Virtual(s) => IdView::Virtual(s@),
            FileId::Entity(h) => IdView::Entity(*h),
        }
    }
}

impl DeepView for FileId {
    type V = IdView;

    open spec fn deep_view(&self) -> IdView {
        self.view()
    }
}

impl FileId {
    /// Equality per variant: two virtual identities match on their paths, two
    /// entity identities on their hashes, and the kinds never mix.
    pub fn id_eq(&self, other: &FileId) -> (r: bool)
        ensures
            r == (self@ == other@),
    {
        match (self, other) {
            (FileId::Virtual(a), FileId::Virtual(b)) => a.eq(b),
            (FileId::Entity(a), FileId::Entity(b)) => a == b,
            _ => false,
        }
    }

    /// An identical copy of this identity.
    pub fn duplicate(&self) -> (r: FileId)
        ensures
            r@ == self@,
    {
        match self {
            FileId::Virtual(s) => FileId::Virtual(s.clone()),
            FileId::Entity(h) => FileId::Entity(*h),
        }
    }
}

} // verus!
