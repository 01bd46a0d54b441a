use vstd::prelude::*;

verus! {

/// One component of a textual path, in the order the path spells them.
pub enum PathPart {
    /// A platform prefix, such as a drive letter.
    Prefix(String),
    /// The root separator.
    RootDir,
    /// The `.` component.
    CurDir,
    /// The `..` component.
    ParentDir,
    /// An ordinary named component.
    Normal(String),
}

/// The mathematical shape of a component: its variant, with any text as a
/// sequence of characters.
pub enum PartView {
    Prefix(Seq<char>),
    RootDir,
    CurDir,
    ParentDir,
    Normal(Seq<char>),
}

impl View for PathPart {
    type V = PartView;

    open spec fn view(&self) -> PartView {
        match self {
            PathPart::Prefix(s) => PartView::Prefix(s@),
            PathPart::RootDir => PartView::RootDir,
            PathPart::CurDir => PartView::CurDir,
            PathPart::ParentDir => PartView::ParentDir,
            PathPart::Normal(s) => PartView::Normal(s@),
        }
    }
}

impl DeepView for PathPart {
    type V = PartView;

    open spec fn deep_view(&self) -> PartView {
        self.view()
    }
}

/// How one component changes an already normalized prefix: `.` is dropped,
/// `..` pops a preceding named component and is otherwise kept verbatim, and
/// every other component is appended.
pub open spec fn norm_push(out: Seq<PartView>, c: PartView) -> Seq<PartView> {
    match c {
        PartView::CurDir => out,
        PartView::ParentDir => if out.len() > 0 && out.last() is Normal {
            out.drop_last()
        } else {
            out.push(c)
        },
        _ => out.push(c),
    }
}

/// The normal form of a whole path: `norm_push` folded over its components.
pub open spec fn spec_normalize(parts: Seq<PartView>) -> Seq<PartView>
    decreases parts.len(),
{
    if parts.len() == 0 {
        Seq::empty()
    } else {
        norm_push(spec_normalize(parts.drop_last()), parts.last())
    }
}

fn clone_part(p: &PathPart) -> (r: PathPart)
    ensures
        r@ == p@,
{
    match p {
        PathPart::Prefix(s) => PathPart::Prefix(s.clone()),
        PathPart::RootDir => PathPart::RootDir,
        PathPart::CurDir => PathPart::CurDir,
        PathPart::ParentDir => PathPart::ParentDir,
        PathPart::Normal(s) => PathPart::Normal(s.clone()),
    }
}

/// Collapses `.` components and resolves `..` against a preceding named
/// component, keeping a leading or unresolvable `..` verbatim, so that two
/// spellings of one location normalize to one cache key.
pub fn normalize(parts: &Vec<PathPart>) -> (out: Vec<PathPart>)
    ensures
        out.deep_view() == spec_normalize(parts.deep_view()),
{
    let mut out: Vec<PathPart> = Vec::new();
    let mut i: usize = 0;
    while i < parts.len()
        invariant
            i <= parts.len(),
            out.deep_view() == spec_normalize(parts.deep_view().take(i as int)),
        decreases parts.len() - i,
    {
        proof {
            assert(parts.deep_view().take(i + 1).drop_last() =~= parts.deep_view().take(
                i as int,
            ));
            assert(parts.deep_view().take(i + 1).last() == parts[i as int].deep_view());
        }
        match &parts[i] {
            PathPart::CurDir => {},
            PathPart::ParentDir => {
                let pop = if out.len() > 0 {
                    match &out[out.len() - 1] {
                        PathPart::Normal(_) => true,
                        _ => false,
                    }
                } else {
                    false
                };
                if pop {
                    let _ = out.pop();
                    proof {
                        assert(out.deep_view() =~= spec_normalize(
                            parts.deep_view().take(i + 1),
                        ));
                    }
                } else {
                    out.push(PathPart::ParentDir);
                }
            },
            _ => {
                out.push(clone_part(&parts[i]));
            },
        }
        i += 1;
        proof {
            assert(out.deep_view() =~= spec_normalize(parts.deep_view().take(i as int)));
        }
    }
    proof {
        assert(parts.deep_view().take(parts@.len() as int) =~= parts.deep_view());
    }
    out
}

} // verus!
