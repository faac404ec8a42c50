//! Command-line materialization: each artifact identity resolves to exactly
//! one concrete path string, whether or not the artifact is bound yet.

use vstd::prelude::*;

use crate::artifact::{ArtifactV, BaseArtifact, UnitLabelV};
use crate::path::{join_path, under_root, with_separator, PathSeparator};

verus! {

/// The two filesystem roots that artifact paths resolve under, and the
/// separator style of the target platform.
pub struct OutputRootResolver {
    pub source_root: String,
    pub output_root: String,
    pub separator: PathSeparator,
}

/// Mathematical value of an [`OutputRootResolver`].
#[verifier::ext_equal]
pub struct ResolverV {
    pub source_root: Seq<char>,
    pub output_root: Seq<char>,
    pub separator: PathSeparator,
}

impl View for OutputRootResolver {
    type V = ResolverV;

    open spec fn view(&self) -> ResolverV {
        ResolverV {
            source_root: self.source_root@,
            output_root: self.output_root@,
            separator: self.separator,
        }
    }
}

impl ResolverV {
    /// The one path string `a` materializes to: a source under the source
    /// root at its package-relative place, an output under the output root
    /// in its unit's scope.  Binding state plays no part, which is what
    /// makes forward references in command lines possible.
    pub open spec fn resolved(self, a: ArtifactV) -> Seq<char> {
        with_separator(
            match a {
                ArtifactV::Source { package, path, .. } => under_root(
                    self.source_root,
                    join_path(package, path),
                ),
                ArtifactV::Declared { unit, path, .. } => under_root(
                    self.output_root,
                    join_path(unit.scope, path),
                ),
                ArtifactV::Bound { unit, path, .. } => under_root(
                    self.output_root,
                    join_path(unit.scope, path),
                ),
            },
            self.separator.sep_char(),
        )
    }
}

impl OutputRootResolver {
    pub fn new(source_root: String, output_root: String, separator: PathSeparator) -> (r:
        OutputRootResolver)
        ensures
            r@ == (ResolverV {
                source_root: source_root@,
                output_root: output_root@,
                separator,
            }),
    {
        OutputRootResolver { source_root, output_root, separator }
    }

    /// The single command-line path for `a`, a function of identity alone.
    pub fn resolve(&self, a: &BaseArtifact) -> (r: String)
        ensures
            r@ == self@.resolved(a@),
    {
        let rel = match a {
            BaseArtifact::Source { package, path, .. } => crate::path::join(
                package.as_str(),
                path.as_str(),
            ),
            BaseArtifact::Declared { unit, path, .. } => crate::path::join(
                unit.scope.as_str(),
                path.as_str(),
            ),
            BaseArtifact::Bound { unit, path, .. } => crate::path::join(
                unit.scope.as_str(),
                path.as_str(),
            ),
        };
        let root = match a {
            BaseArtifact::Source { .. } => &self.source_root,
            BaseArtifact::Declared { .. } => &self.output_root,
            BaseArtifact::Bound { .. } => &self.output_root,
        };
        let full = if root.as_str().unicode_len() == 0 {
            rel
        } else {
            crate::path::join(root.as_str(), rel.as_str())
        };
        self.separator.render(full.as_str())
    }
}

/// Resolution ignores binding state: a declared artifact and its bound form
/// resolve to the same path, before and after its producing action is
/// registered.
pub proof fn lemma_resolution_ignores_binding(
    fs: ResolverV,
    unit: UnitLabelV,
    index: u64,
    path: Seq<char>,
    action: u64,
)
    ensures
        fs.resolved(ArtifactV::Declared { unit, index, path }) == fs.resolved(
            ArtifactV::Bound { unit, index, path, action },
        ),
{
}

} // verus!
