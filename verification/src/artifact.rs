//! Artifact identity: source files, declared outputs, and frozen bound
//! outputs, with their derived paths and display forms.

use vstd::prelude::*;

use crate::path::{basename, basename_of, extension, extension_of, projected_path};

verus! {

/// Identity of one registered action: the owning build unit and the action's
/// position within that unit's registry.
#[derive(Clone, Copy, PartialEq, Eq, Structural, Debug)]
pub struct ActionKey {
    pub unit: u64,
    pub action: u64,
}

/// Identity of a build unit: a numeric id, a display label such as
/// `root//foo:bar`, and the unit's scope directory under the output root,
/// such as `foo/__bar__`.
#[derive(Debug)]
pub struct UnitLabel {
    pub id: u64,
    pub label: String,
    pub scope: String,
}

/// Mathematical value of a [`UnitLabel`].
#[verifier::ext_equal]
pub struct UnitLabelV {
    pub id: u64,
    pub label: Seq<char>,
    pub scope: Seq<char>,
}

impl View for UnitLabel {
    type V = UnitLabelV;

    open spec fn view(&self) -> UnitLabelV {
        UnitLabelV { id: self.id, label: self.label@, scope: self.scope@ }
    }
}

impl UnitLabel {
    pub fn new(id: u64, label: String, scope: String) -> (r: UnitLabel)
        ensures
            r@ == (UnitLabelV { id, label: label@, scope: scope@ }),
    {
        UnitLabel { id, label, scope }
    }

    /// A value with the same identity.
    pub fn duplicate(&self) -> (r: UnitLabel)
        ensures
            r@ == self@,
    {
        UnitLabel { id: self.id, label: self.label.clone(), scope: self.scope.clone() }
    }
}

/// Whether a declared output is a file or a directory.
#[derive(Clone, Copy, PartialEq, Eq, Structural, Debug)]
pub enum OutputType {
    File,
    Directory,
}

/// An artifact: a pre-existing source file, an output declared by a build
/// unit that is still owned by that unit's registry, or a frozen output of a
/// completed unit, bound to its producing action.
#[derive(Debug)]
pub enum BaseArtifact {
    Source { cell: String, package: String, path: String },
    Declared { unit: UnitLabel, index: u64, path: String },
    Bound { unit: UnitLabel, index: u64, path: String, action: u64 },
}

/// Mathematical value of a [`BaseArtifact`].
#[verifier::ext_equal]
pub enum ArtifactV {
    Source { cell: Seq<char>, package: Seq<char>, path: Seq<char> },
    Declared { unit: UnitLabelV, index: u64, path: Seq<char> },
    Bound { unit: UnitLabelV, index: u64, path: Seq<char>, action: u64 },
}

impl View for BaseArtifact {
    type V = ArtifactV;

    open spec fn view(&self) -> ArtifactV {
        match self {
            BaseArtifact::Source { cell, package, path } => ArtifactV::Source {
                cell: cell@,
                package: package@,
                path: path@,
            },
            BaseArtifact::Declared { unit, index, path } => ArtifactV::Declared {
                unit: unit@,
                index: *index,
                path: path@,
            },
            BaseArtifact::Bound { unit, index, path, action } => ArtifactV::Bound {
                unit: unit@,
                index: *index,
                path: path@,
                action: *action,
            },
        }
    }
}

impl ArtifactV {
    /// The effective logical path: for a source, its package-relative path;
    /// for an output, its projected path under the unit's output directory.
    pub open spec fn short_path(self) -> Seq<char> {
        match self {
            ArtifactV::Source { path, .. } => path,
            ArtifactV::Declared { path, .. } => path,
            ArtifactV::Bound { path, .. } => path,
        }
    }

    pub open spec fn is_source(self) -> bool {
        self is Source
    }

    /// The producing action recorded in the artifact value itself.  A
    /// `Declared` value is an unbound handle: its binding state lives in its
    /// unit's registry.
    pub open spec fn frozen_owner(self) -> Option<ActionKey> {
        match self {
            ArtifactV::Bound { unit, action, .. } => Some(
                ActionKey { unit: unit.id, action },
            ),
            _ => None,
        }
    }

    /// Diagnostic form mirroring identity and binding state.
    pub open spec fn display(self) -> Seq<char> {
        match self {
            ArtifactV::Source { package, path, .. } => "<source "@ + package + "/"@ + path
                + ">"@,
            ArtifactV::Declared { path, .. } => "<build artifact "@ + path + ">"@,
            ArtifactV::Bound { unit, path, .. } => "<build artifact "@ + path + " bound to "@
                + unit.label + ">"@,
        }
    }

    /// Fully qualified path form, used when listing associated artifacts.
    pub open spec fn full_path(self) -> Seq<char> {
        match self {
            ArtifactV::Source { cell, package, path } => cell + "//"@ + package + "/"@ + path,
            ArtifactV::Declared { unit, path, .. } => unit.label + "/"@ + path,
            ArtifactV::Bound { unit, path, .. } => unit.label + "/"@ + path,
        }
    }
}

/// A failure of an artifact operation.  Every error is recoverable and is
/// reported to the build definition's author, never a process abort.
#[derive(Clone, Copy, PartialEq, Eq, Structural, Debug)]
pub enum ArtifactError {
    /// Binding information was required of a declared artifact that no
    /// registered action ever listed as an output.
    DeclaredArtifactWasNotBound,
    /// A source artifact was used as the output of an action.
    SourceArtifactAsOutput,
    /// An artifact was used as an output but is already produced by another
    /// action.
    BoundArtifactAsOutput { existing_owner: ActionKey },
    /// A source artifact was projected.
    NotProjectable,
    /// An artifact owned by a completed build unit was projected outside its
    /// declaring unit.
    CrossOwnerProjection,
    /// The same relative path was declared twice within one build unit.
    DuplicateDeclaration,
}

impl ArtifactError {
    pub open spec fn message_spec(self) -> Seq<char> {
        match self {
            ArtifactError::DeclaredArtifactWasNotBound => "expected artifact to be used as the output of an action, but it was not"@,
            ArtifactError::SourceArtifactAsOutput => "attempted to use source artifact as the output of an action. Source artifacts may not be outputs."@,
            ArtifactError::BoundArtifactAsOutput { .. } => "attempted to use artifact as the output of an action, but it was already used by another action"@,
            ArtifactError::NotProjectable => "Source artifacts cannot be projected"@,
            ArtifactError::CrossOwnerProjection => "This artifact was declared by another rule"@,
            ArtifactError::DuplicateDeclaration => "artifact with this path was already declared within this rule"@,
        }
    }

    pub fn message(&self) -> (r: String)
        ensures
            r@ == self.message_spec(),
    {
        match self {
            ArtifactError::DeclaredArtifactWasNotBound => String::from_str(
                "expected artifact to be used as the output of an action, but it was not",
            ),
            ArtifactError::SourceArtifactAsOutput => String::from_str(
                "attempted to use source artifact as the output of an action. Source artifacts may not be outputs.",
            ),
            ArtifactError::BoundArtifactAsOutput { .. } => String::from_str(
                "attempted to use artifact as the output of an action, but it was already used by another action",
            ),
            ArtifactError::NotProjectable => String::from_str(
                "Source artifacts cannot be projected",
            ),
            ArtifactError::CrossOwnerProjection => String::from_str(
                "This artifact was declared by another rule",
            ),
            ArtifactError::DuplicateDeclaration => String::from_str(
                "artifact with this path was already declared within this rule",
            ),
        }
    }
}

impl BaseArtifact {
    /// A source artifact at `path` within `package` of `cell`.
    pub fn new_source(cell: String, package: String, path: String) -> (r: BaseArtifact)
        ensures
            r@ == (ArtifactV::Source { cell: cell@, package: package@, path: path@ }),
    {
        BaseArtifact::Source { cell, package, path }
    }

    /// A frozen output of a completed build unit, bound to action `action`
    /// of that unit.
    pub fn new_bound(unit: UnitLabel, index: u64, path: String, action: u64) -> (r:
        BaseArtifact)
        ensures
            r@ == (ArtifactV::Bound { unit: unit@, index, path: path@, action }),
    {
        BaseArtifact::Bound { unit, index, path, action }
    }

    /// A value with the same identity.
    pub fn duplicate(&self) -> (r: BaseArtifact)
        ensures
            r@ == self@,
    {
        match self {
            BaseArtifact::Source { cell, package, path } => BaseArtifact::Source {
                cell: cell.clone(),
                package: package.clone(),
                path: path.clone(),
            },
            BaseArtifact::Declared { unit, index, path } => BaseArtifact::Declared {
                unit: unit.duplicate(),
                index: *index,
                path: path.clone(),
            },
            BaseArtifact::Bound { unit, index, path, action } => BaseArtifact::Bound {
                unit: unit.duplicate(),
                index: *index,
                path: path.clone(),
                action: *action,
            },
        }
    }

    pub fn is_source(&self) -> (r: bool)
        ensures
            r == self@.is_source(),
    {
        match self {
            BaseArtifact::Source { .. } => true,
            _ => false,
        }
    }

    pub fn short_path(&self) -> (r: &str)
        ensures
            r@ == self@.short_path(),
    {
        match self {
            BaseArtifact::Source { path, .. } => path.as_str(),
            BaseArtifact::Declared { path, .. } => path.as_str(),
            BaseArtifact::Bound { path, .. } => path.as_str(),
        }
    }

    pub fn basename(&self) -> (r: String)
        ensures
            r@ == basename_of(self@.short_path()),
    {
        basename(self.short_path())
    }

    pub fn extension(&self) -> (r: String)
        ensures
            r@ == extension_of(self@.short_path()),
    {
        extension(self.short_path())
    }

    /// The producing action recorded in this value; `None` for a source or
    /// for a declared handle, whose binding state lives in its registry.
    pub fn frozen_owner(&self) -> (r: Option<ActionKey>)
        ensures
            r == self@.frozen_owner(),
    {
        match self {
            BaseArtifact::Bound { unit, action, .. } => Some(
                ActionKey { unit: unit.id, action: *action },
            ),
            _ => None,
        }
    }

    /// A sub-path artifact that shares this artifact's identity.  A hidden
    /// prefix drops everything declared before `seg` from the display path.
    /// Sources are never projectable, and a frozen artifact may only be
    /// projected by its declaring unit.
    pub fn project(&self, seg: &str, hide_prefix: bool) -> (r: Result<
        BaseArtifact,
        ArtifactError,
    >)
        ensures
            r is Err <==> !(self@ is Declared),
            self@ is Source ==> r == Err::<BaseArtifact, ArtifactError>(
                ArtifactError::NotProjectable,
            ),
            self@ is Bound ==> r == Err::<BaseArtifact, ArtifactError>(
                ArtifactError::CrossOwnerProjection,
            ),
            self@ matches ArtifactV::Declared { unit, index, path } ==> r matches Ok(b)
                && b@ == (ArtifactV::Declared {
                unit,
                index,
                path: projected_path(path, seg@, hide_prefix),
            }),
    {
        match self {
            BaseArtifact::Source { .. } => Err(ArtifactError::NotProjectable),
            BaseArtifact::Bound { .. } => Err(ArtifactError::CrossOwnerProjection),
            BaseArtifact::Declared { unit, index, path } => {
                let new_path = if hide_prefix {
                    String::from_str(seg)
                } else {
                    crate::path::join(path.as_str(), seg)
                };
                Ok(
                    BaseArtifact::Declared {
                        unit: unit.duplicate(),
                        index: *index,
                        path: new_path,
                    },
                )
            },
        }
    }

    /// Diagnostic form mirroring identity and binding state.
    pub fn display_string(&self) -> (r: String)
        ensures
            r@ == self@.display(),
    {
        match self {
            BaseArtifact::Source { package, path, .. } => {
                let mut r = String::from_str("<source ");
                r.append(package.as_str());
                r.append("/");
                r.append(path.as_str());
                r.append(">");
                proof {
                    assert(r@ =~= self@.display());
                }
                r
            },
            BaseArtifact::Declared { path, .. } => {
                let mut r = String::from_str("<build artifact ");
                r.append(path.as_str());
                r.append(">");
                proof {
                    assert(r@ =~= self@.display());
                }
                r
            },
            BaseArtifact::Bound { unit, path, .. } => {
                let mut r = String::from_str("<build artifact ");
                r.append(path.as_str());
                r.append(" bound to ");
                r.append(unit.label.as_str());
                r.append(">");
                proof {
                    assert(r@ =~= self@.display());
                }
                r
            },
        }
    }

    /// Fully qualified path form, used when listing associated artifacts.
    pub fn full_path_string(&self) -> (r: String)
        ensures
            r@ == self@.full_path(),
    {
        match self {
            BaseArtifact::Source { cell, package, path } => {
                let mut r = cell.clone();
                r.append("//");
                r.append(package.as_str());
                r.append("/");
                r.append(path.as_str());
                proof {
                    assert(r@ =~= self@.full_path());
                }
                r
            },
            BaseArtifact::Declared { unit, path, .. } => {
                let mut r = unit.label.clone();
                r.append("/");
                r.append(path.as_str());
                proof {
                    assert(r@ =~= self@.full_path());
                }
                r
            },
            BaseArtifact::Bound { unit, path, .. } => {
                let mut r = unit.label.clone();
                r.append("/");
                r.append(path.as_str());
                proof {
                    assert(r@ =~= self@.full_path());
                }
                r
            },
        }
    }
}

/// Whether two artifacts have the same identity.
pub fn artifact_eq(a: &BaseArtifact, b: &BaseArtifact) -> (r: bool)
    ensures
        r == (a@ == b@),
{
    match (a, b) {
        (
            BaseArtifact::Source { cell: c1, package: pk1, path: p1 },
            BaseArtifact::Source { cell: c2, package: pk2, path: p2 },
        ) => {
            let r = crate::path::str_eq(c1.as_str(), c2.as_str()) && crate::path::str_eq(
                pk1.as_str(),
                pk2.as_str(),
            ) && crate::path::str_eq(p1.as_str(), p2.as_str());
            proof {
                if r {
                    assert(a@ =~= b@);
                }
            }
            r
        },
        (
            BaseArtifact::Declared { unit: u1, index: i1, path: p1 },
            BaseArtifact::Declared { unit: u2, index: i2, path: p2 },
        ) => {
            let r = u1.id == u2.id && *i1 == *i2 && crate::path::str_eq(
                u1.label.as_str(),
                u2.label.as_str(),
            ) && crate::path::str_eq(u1.scope.as_str(), u2.scope.as_str())
                && crate::path::str_eq(p1.as_str(), p2.as_str());
            proof {
                if r {
                    assert(a@ =~= b@);
                }
            }
            r
        },
        (
            BaseArtifact::Bound { unit: u1, index: i1, path: p1, action: a1 },
            BaseArtifact::Bound { unit: u2, index: i2, path: p2, action: a2 },
        ) => {
            let r = u1.id == u2.id && *i1 == *i2 && *a1 == *a2 && crate::path::str_eq(
                u1.label.as_str(),
                u2.label.as_str(),
            ) && crate::path::str_eq(u1.scope.as_str(), u2.scope.as_str())
                && crate::path::str_eq(p1.as_str(), p2.as_str());
            proof {
                if r {
                    assert(a@ =~= b@);
                }
            }
            r
        },
        _ => false,
    }
}

} // verus!
