//! The per-build-unit binding registry: it allocates declared artifacts,
//! records exactly one producing action per artifact, and rejects
//! double-binding and the binding of source artifacts.

use vstd::prelude::*;

use crate::artifact::{ActionKey, ArtifactError, ArtifactV, BaseArtifact, OutputType, UnitLabel, UnitLabelV};

verus! {

/// Binding state of one declared artifact: its requested path, its output
/// kind, and the index of the producing action once bound.
pub struct DeclaredEntry {
    pub path: String,
    pub output_type: OutputType,
    pub owner: Option<u64>,
}

/// Mathematical value of one declared-artifact record.
#[verifier::ext_equal]
pub struct EntryV {
    pub path: Seq<char>,
    pub output_type: OutputType,
    pub owner: Option<u64>,
}

impl View for DeclaredEntry {
    type V = EntryV;

    open spec fn view(&self) -> EntryV {
        EntryV { path: self.path@, output_type: self.output_type, owner: self.owner }
    }
}

/// One registered action: its key, its declared inputs and outputs, and the
/// caller's opaque action description.
pub struct ActionRecord {
    pub key: ActionKey,
    pub inputs: Vec<BaseArtifact>,
    pub outputs: Vec<u64>,
    pub category: String,
}

/// Mathematical value of one action record.
#[verifier::ext_equal]
pub struct ActionV {
    pub key: ActionKey,
    pub inputs: Seq<ArtifactV>,
    pub outputs: Seq<u64>,
    pub category: Seq<char>,
}

impl View for ActionRecord {
    type V = ActionV;

    open spec fn view(&self) -> ActionV {
        ActionV {
            key: self.key,
            inputs: self.inputs@.map_values(|b: BaseArtifact| b@),
            outputs: self.outputs@,
            category: self.category@,
        }
    }
}

/// The write handle to one declared artifact, minted by [`BindingRegistry::as_output`]
/// and consumed by [`BindingRegistry::register`].  It is distinct from a read
/// reference so that an action cannot bind an artifact through an immutable
/// view.
#[derive(Debug)]
pub struct OutputArtifact {
    pub unit: u64,
    pub index: u64,
    pub path: String,
}

impl OutputArtifact {
    /// Diagnostic form.
    pub fn display_string(&self) -> (r: String)
        ensures
            r@ == "<output artifact for "@ + self.path@ + ">"@,
    {
        let mut r = String::from_str("<output artifact for ");
        r.append(self.path.as_str());
        r.append(">");
        proof {
            assert(r@ =~= "<output artifact for "@ + self.path@ + ">"@);
        }
        r
    }
}

/// Mathematical value of a whole registry.
#[verifier::ext_equal]
pub struct RegistryV {
    pub unit: UnitLabelV,
    pub entries: Seq<EntryV>,
    pub actions: Seq<ActionV>,
}

/// Whether some declared entry already carries `path`.
pub open spec fn has_path(entries: Seq<EntryV>, path: Seq<char>) -> bool {
    exists|i: int| 0 <= i < entries.len() && #[trigger] entries[i].path == path
}

/// Whether some listed output is already bound.
pub open spec fn has_bound_output(entries: Seq<EntryV>, outputs: Seq<OutputArtifact>) -> bool {
    exists|j: int| 0 <= j < outputs.len() && entries[#[trigger] outputs[j].index as int].owner
        is Some
}

/// Whether the same artifact is listed as an output twice.
pub open spec fn has_duplicate_output(outputs: Seq<OutputArtifact>) -> bool {
    exists|j1: int, j2: int| 0 <= j1 < j2 < outputs.len() && #[trigger] outputs[j1].index
        == #[trigger] outputs[j2].index
}

/// Whether entry `i` is listed among the first `j` outputs.
pub open spec fn outputs_contain(outputs: Seq<OutputArtifact>, j: int, i: int) -> bool {
    exists|jj: int| 0 <= jj < j && #[trigger] outputs[jj].index == i
}

/// Whether `owner` is the recorded producer of some listed output.
pub open spec fn owner_of_some_output(
    entries: Seq<EntryV>,
    outputs: Seq<OutputArtifact>,
    owner: ActionKey,
    unit: u64,
) -> bool {
    owner.unit == unit && exists|j: int|
        0 <= j < outputs.len() && entries[#[trigger] outputs[j].index as int].owner == Some(
            owner.action,
        )
}

/// Every already-bound entry keeps its owner: binding is permanent.
pub open spec fn owners_preserved(pre: Seq<EntryV>, post: Seq<EntryV>) -> bool {
    &&& pre.len() <= post.len()
    &&& forall|i: int|
        0 <= i < pre.len() ==> (#[trigger] pre[i].owner matches Some(k) ==> post[i].owner
            == Some(k))
}

impl RegistryV {
    /// Internal consistency: requested paths are unique, every recorded
    /// owner names a registered action of this unit, and an entry is bound
    /// to an action exactly when that action lists it as an output.
    pub open spec fn wf(self) -> bool {
        &&& forall|i: int, j: int|
            0 <= i < j < self.entries.len() ==> #[trigger] self.entries[i].path
                != #[trigger] self.entries[j].path
        &&& forall|i: int|
            0 <= i < self.entries.len() ==> (#[trigger] self.entries[i].owner matches Some(k)
                ==> k < self.actions.len())
        &&& forall|k: int|
            0 <= k < self.actions.len() ==> #[trigger] self.actions[k].key == (ActionKey {
                unit: self.unit.id,
                action: k as u64,
            })
        &&& forall|k: int, j: int|
            0 <= k < self.actions.len() && 0 <= j < self.actions[k].outputs.len()
                ==> #[trigger] self.actions[k].outputs[j] < self.entries.len()
                && self.entries[self.actions[k].outputs[j] as int].owner == Some(k as u64)
        &&& forall|i: int|
            0 <= i < self.entries.len() ==> (#[trigger] self.entries[i].owner matches Some(k)
                ==> self.actions[k as int].outputs.contains(i as u64))
    }

    /// Whether `a` is a declared handle of this registry.
    pub open spec fn local_declared(self, a: ArtifactV) -> bool {
        a matches ArtifactV::Declared { unit, index, .. } ==> unit.id == self.unit.id && index
            < self.entries.len()
    }

    /// The producing action of `a`, consulting this registry for a declared
    /// handle.
    pub open spec fn owner_of(self, a: ArtifactV) -> Option<ActionKey> {
        match a {
            ArtifactV::Source { .. } => None,
            ArtifactV::Bound { unit, action, .. } => Some(ActionKey { unit: unit.id, action }),
            ArtifactV::Declared { index, .. } => match self.entries[index as int].owner {
                Some(k) => Some(ActionKey { unit: self.unit.id, action: k }),
                None => None,
            },
        }
    }

    /// The declared artifacts never listed as an output of any action, in
    /// declaration order.
    pub open spec fn unbound_artifacts(self) -> Seq<ArtifactV> {
        unbound_from(self.unit, self.entries)
    }
}

/// The declared-but-unbound handles of `entries`, in order.
pub open spec fn unbound_from(unit: UnitLabelV, entries: Seq<EntryV>) -> Seq<ArtifactV>
    decreases entries.len(),
{
    if entries.len() == 0 {
        Seq::empty()
    } else {
        let pre = unbound_from(unit, entries.drop_last());
        let i = entries.len() - 1;
        if entries[i].owner is None {
            pre.push(
                ArtifactV::Declared { unit, index: i as u64, path: entries[i].path },
            )
        } else {
            pre
        }
    }
}

/// The per-unit registry.  It exclusively owns all declared-artifact records
/// of its build unit for the duration of that unit's analysis.
pub struct BindingRegistry {
    unit: UnitLabel,
    entries: Vec<DeclaredEntry>,
    actions: Vec<ActionRecord>,
}

impl View for BindingRegistry {
    type V = RegistryV;

    closed spec fn view(&self) -> RegistryV {
        RegistryV {
            unit: self.unit@,
            entries: self.entries@.map_values(|e: DeclaredEntry| e@),
            actions: self.actions@.map_values(|a: ActionRecord| a@),
        }
    }
}

impl BindingRegistry {
    /// An empty registry for `unit`.
    pub fn new(unit: UnitLabel) -> (r: BindingRegistry)
        ensures
            r@ == (RegistryV {
                unit: unit@,
                entries: Seq::<EntryV>::empty(),
                actions: Seq::<ActionV>::empty(),
            }),
            r@.wf(),
    {
        let r = BindingRegistry { unit, entries: Vec::new(), actions: Vec::new() };
        proof {
            assert(r@.entries =~= Seq::<EntryV>::empty());
            assert(r@.actions =~= Seq::<ActionV>::empty());
        }
        r
    }

    /// Whether some artifact with `path` was already declared here.
    pub fn is_declared(&self, path: &str) -> (r: bool)
        ensures
            r == has_path(self@.entries, path@),
    {
        let n = self.entries.len();
        let mut i: usize = 0;
        while i < n
            invariant
                i <= n,
                n == self.entries.len(),
                forall|j: int| 0 <= j < i ==> #[trigger] self@.entries[j].path != path@,
            decreases n - i,
        {
            if crate::path::str_eq(self.entries[i].path.as_str(), path) {
                proof {
                    assert(self@.entries[i as int].path == path@);
                }
                return true;
            }
            i = i + 1;
        }
        false
    }

    /// Allocates a fresh unbound declared artifact at `path`.  The requested
    /// path must be new within this unit, or the call fails with
    /// [`ArtifactError::DuplicateDeclaration`] and the registry is unchanged.
    pub fn declare(&mut self, path: String, output_type: OutputType) -> (r: Result<
        BaseArtifact,
        ArtifactError,
    >)
        requires
            old(self)@.wf(),
        ensures
            final(self)@.wf(),
            final(self)@.unit == old(self)@.unit,
            final(self)@.actions == old(self)@.actions,
            owners_preserved(old(self)@.entries, final(self)@.entries),
            r is Err <==> has_path(old(self)@.entries, path@),
            r matches Err(e) ==> e == ArtifactError::DuplicateDeclaration && final(self)@
                == old(self)@,
            r matches Ok(a) ==> {
                &&& a@ == (ArtifactV::Declared {
                    unit: old(self)@.unit,
                    index: old(self)@.entries.len() as u64,
                    path: path@,
                })
                &&& final(self)@.entries == old(self)@.entries.push(
                    EntryV { path: path@, output_type, owner: None },
                )
            },
    {
        if self.is_declared(path.as_str()) {
            return Err(ArtifactError::DuplicateDeclaration);
        }
        let index = self.entries.len() as u64;
        let artifact = BaseArtifact::Declared {
            unit: self.unit.duplicate(),
            index,
            path: path.clone(),
        };
        self.entries.push(DeclaredEntry { path, output_type, owner: None });
        proof {
            assert(self@.entries =~= old(self)@.entries.push(
                EntryV { path: artifact@->Declared_path, output_type, owner: None },
            ));
            assert(self@.wf());
        }
        Ok(artifact)
    }

    /// Converts a declared artifact into the write handle that action
    /// registration consumes.  Fails on a source artifact and on an artifact
    /// that is already bound.
    pub fn as_output(&self, a: &BaseArtifact) -> (r: Result<OutputArtifact, ArtifactError>)
        requires
            self@.wf(),
            self@.local_declared(a@),
        ensures
            a@ is Source <==> r == Err::<OutputArtifact, ArtifactError>(
                ArtifactError::SourceArtifactAsOutput,
            ),
            a@ matches ArtifactV::Bound { unit, action, .. } ==> r == Err::<
                OutputArtifact,
                ArtifactError,
            >(
                ArtifactError::BoundArtifactAsOutput {
                    existing_owner: ActionKey { unit: unit.id, action },
                },
            ),
            a@ matches ArtifactV::Declared { index, path, .. } ==> match self@.entries[
                index as int
            ].owner {
                Some(k) => r == Err::<OutputArtifact, ArtifactError>(
                    ArtifactError::BoundArtifactAsOutput {
                        existing_owner: ActionKey { unit: self@.unit.id, action: k },
                    },
                ),
                None => r matches Ok(o) && o.unit == self@.unit.id && o.index == index
                    && o.path@ == path,
            },
    {
        match a {
            BaseArtifact::Source { .. } => Err(ArtifactError::SourceArtifactAsOutput),
            BaseArtifact::Bound { unit, action, .. } => Err(
                ArtifactError::BoundArtifactAsOutput {
                    existing_owner: ActionKey { unit: unit.id, action: *action },
                },
            ),
            BaseArtifact::Declared { index, path, .. } => {
                let n = self.entries.len();
                proof {
                    assert((*index) < self@.entries.len());
                    assert(self@.entries.len() == n);
                }
                let i = *index as usize;
                proof {
                    assert(self@.entries[i as int] == self.entries@[i as int]@);
                }
                match self.entries[i].owner {
                    Some(k) => Err(
                        ArtifactError::BoundArtifactAsOutput {
                            existing_owner: ActionKey { unit: self.unit.id, action: k },
                        },
                    ),
                    None => Ok(
                        OutputArtifact { unit: self.unit.id, index: *index, path: path.clone() },
                    ),
                }
            },
        }
    }

    /// The build unit this registry declares artifacts for.
    pub fn unit(&self) -> (r: &UnitLabel)
        ensures
            r@ == self@.unit,
    {
        &self.unit
    }

    /// How many actions have been registered.
    pub fn action_count(&self) -> (r: usize)
        ensures
            r == self@.actions.len(),
    {
        self.actions.len()
    }

    /// The recorded action at `index` of this unit's deferred-computation
    /// index, if one was registered.
    pub fn action(&self, index: u64) -> (r: Option<&ActionRecord>)
        ensures
            match r {
                Some(rec) => index < self@.actions.len() && rec@ == self@.actions[index as int],
                None => index >= self@.actions.len(),
            },
    {
        let n = self.actions.len();
        proof {
            assert(self@.actions.len() == n);
        }
        if index < n as u64 {
            let i = index as usize;
            proof {
                assert(self@.actions[i as int] == self.actions@[i as int]@);
            }
            Some(&self.actions[i])
        } else {
            None
        }
    }

    /// The producing action of `a`: `None` for a source artifact and for a
    /// declared artifact not yet listed as an action output.
    pub fn owner(&self, a: &BaseArtifact) -> (r: Option<ActionKey>)
        requires
            self@.wf(),
            self@.local_declared(a@),
        ensures
            r == self@.owner_of(a@),
    {
        match a {
            BaseArtifact::Source { .. } => None,
            BaseArtifact::Bound { unit, action, .. } => Some(
                ActionKey { unit: unit.id, action: *action },
            ),
            BaseArtifact::Declared { index, .. } => {
                let n = self.entries.len();
                proof {
                    assert((*index) < self@.entries.len());
                    assert(self@.entries.len() == n);
                }
                let i = *index as usize;
                proof {
                    assert(self@.entries[i as int] == self.entries@[i as int]@);
                }
                match self.entries[i].owner {
                    Some(k) => Some(ActionKey { unit: self.unit.id, action: k }),
                    None => None,
                }
            },
        }
    }

    /// Registers one action over the given write handles.  Either every
    /// listed output becomes bound to the freshly minted action, or -- when
    /// some output is already bound or is listed twice -- nothing changes at
    /// all and the call fails with [`ArtifactError::BoundArtifactAsOutput`].
    /// A source artifact cannot reach this point: only [`Self::as_output`]
    /// mints write handles, and it refuses sources with
    /// [`ArtifactError::SourceArtifactAsOutput`].
    pub fn register(
        &mut self,
        inputs: Vec<BaseArtifact>,
        outputs: Vec<OutputArtifact>,
        category: String,
    ) -> (r: Result<ActionKey, ArtifactError>)
        requires
            old(self)@.wf(),
            forall|j: int|
                0 <= j < outputs@.len() ==> (#[trigger] outputs@[j]).unit == old(self)@.unit.id
                    && outputs@[j].index < old(self)@.entries.len(),
        ensures
            final(self)@.wf(),
            final(self)@.unit == old(self)@.unit,
            owners_preserved(old(self)@.entries, final(self)@.entries),
            r is Ok <==> !has_bound_output(old(self)@.entries, outputs@)
                && !has_duplicate_output(outputs@),
            r is Err ==> final(self)@ == old(self)@,
            r matches Err(e) ==> e matches ArtifactError::BoundArtifactAsOutput {
                existing_owner,
            } && (owner_of_some_output(
                old(self)@.entries,
                outputs@,
                existing_owner,
                old(self)@.unit.id,
            ) || (has_duplicate_output(outputs@) && existing_owner == (ActionKey {
                unit: old(self)@.unit.id,
                action: old(self)@.actions.len() as u64,
            }))),
            r matches Ok(key) ==> {
                &&& key == (ActionKey {
                    unit: old(self)@.unit.id,
                    action: old(self)@.actions.len() as u64,
                })
                &&& final(self)@.actions == old(self)@.actions.push(
                    (ActionV {
                        key,
                        inputs: inputs@.map_values(|b: BaseArtifact| b@),
                        outputs: outputs@.map_values(|o: OutputArtifact| o.index),
                        category: category@,
                    }),
                )
                &&& final(self)@.entries.len() == old(self)@.entries.len()
                &&& forall|i: int|
                    0 <= i < old(self)@.entries.len() ==> #[trigger] final(self)@.entries[i]
                        == (if outputs_contain(outputs@, outputs@.len() as int, i) {
                        (EntryV {
                            path: old(self)@.entries[i].path,
                            output_type: old(self)@.entries[i].output_type,
                            owner: Some(key.action),
                        })
                    } else {
                        old(self)@.entries[i]
                    })
            },
    {
        let n_out = outputs.len();
        // Validate every output before binding any, so that a failed
        // registration leaves the registry exactly as it was.
        let mut j: usize = 0;
        while j < n_out
            invariant
                j <= n_out,
                n_out == outputs@.len(),
                old(self)@.wf(),
                *self == *old(self),
                forall|jj: int|
                    0 <= jj < outputs@.len() ==> (#[trigger] outputs@[jj]).index < old(
                        self,
                    )@.entries.len(),
                forall|jj: int|
                    0 <= jj < j ==> old(self)@.entries[(#[trigger] outputs@[jj]).index as int].owner
                        is None,
                forall|j1: int, j2: int|
                    0 <= j1 < j2 < j ==> (#[trigger] outputs@[j1]).index != (
                    #[trigger] outputs@[j2]).index,
            decreases n_out - j,
        {
            let idx_u = outputs[j].index;
            let n = self.entries.len();
            proof {
                assert(idx_u < old(self)@.entries.len());
                assert(self@.entries.len() == n);
            }
            let idx = idx_u as usize;
            match self.entries[idx].owner {
                Some(k) => {
                    let existing_owner = ActionKey { unit: self.unit.id, action: k };
                    proof {
                        assert(old(self)@.entries[outputs@[j as int].index as int].owner
                            == Some(k));
                        assert(has_bound_output(old(self)@.entries, outputs@));
                        assert(owner_of_some_output(
                            old(self)@.entries,
                            outputs@,
                            existing_owner,
                            old(self)@.unit.id,
                        ));
                    }
                    return Err(ArtifactError::BoundArtifactAsOutput { existing_owner });
                },
                None => {},
            }
            let mut j2: usize = 0;
            while j2 < j
                invariant
                    j2 <= j,
                    j < n_out,
                    n_out == outputs@.len(),
                    old(self)@.wf(),
                    *self == *old(self),
                    forall|jj: int|
                        0 <= jj < j2 ==> (#[trigger] outputs@[jj]).index != outputs@[
                            j as int
                        ].index,
                decreases j - j2,
            {
                if outputs[j2].index == outputs[j].index {
                    let act = self.actions.len() as u64;
                    let existing_owner = ActionKey { unit: self.unit.id, action: act };
                    proof {
                        assert(outputs@[j2 as int].index == outputs@[j as int].index);
                        assert(has_duplicate_output(outputs@));
                        assert(self@.actions.len() == self.actions@.len());
                    }
                    return Err(ArtifactError::BoundArtifactAsOutput { existing_owner });
                }
                j2 = j2 + 1;
            }
            j = j + 1;
        }
        // Commit: mint the action, bind every output to it, and record it.
        proof {
            assert(self@.actions.len() == self.actions@.len());
        }
        let act: u64 = self.actions.len() as u64;
        let key = ActionKey { unit: self.unit.id, action: act };
        let mut out_idxs: Vec<u64> = Vec::new();
        let mut j: usize = 0;
        while j < n_out
            invariant
                j <= n_out,
                n_out == outputs@.len(),
                *self == *old(self),
                out_idxs@.len() == j,
                forall|jj: int| 0 <= jj < j ==> #[trigger] out_idxs@[jj] == outputs@[jj].index,
            decreases n_out - j,
        {
            out_idxs.push(outputs[j].index);
            j = j + 1;
        }
        let mut j: usize = 0;
        while j < n_out
            invariant
                j <= n_out,
                n_out == outputs@.len(),
                old(self)@.wf(),
                act == old(self)@.actions.len() as u64,
                key == (ActionKey { unit: old(self)@.unit.id, action: act }),
                self@.unit == old(self)@.unit,
                self@.actions == old(self)@.actions,
                self@.entries.len() == old(self)@.entries.len(),
                self.unit == old(self).unit,
                self.actions@ == old(self).actions@,
                forall|jj: int|
                    0 <= jj < outputs@.len() ==> (#[trigger] outputs@[jj]).index < old(
                        self,
                    )@.entries.len(),
                forall|jj: int|
                    0 <= jj < outputs@.len() ==> old(self)@.entries[(
                    #[trigger] outputs@[jj]).index as int].owner is None,
                forall|j1: int, j2: int|
                    0 <= j1 < j2 < outputs@.len() ==> (#[trigger] outputs@[j1]).index != (
                    #[trigger] outputs@[j2]).index,
                forall|i: int|
                    0 <= i < old(self)@.entries.len() ==> #[trigger] self@.entries[i] == (
                    if outputs_contain(outputs@, j as int, i) {
                        (EntryV {
                            path: old(self)@.entries[i].path,
                            output_type: old(self)@.entries[i].output_type,
                            owner: Some(act),
                        })
                    } else {
                        old(self)@.entries[i]
                    }),
            decreases n_out - j,
        {
            let idx_u = outputs[j].index;
            let n = self.entries.len();
            proof {
                assert(idx_u < old(self)@.entries.len());
                assert(self@.entries.len() == n);
            }
            let idx = idx_u as usize;
            proof {
                assert(!outputs_contain(outputs@, j as int, idx as int)) by {
                    if outputs_contain(outputs@, j as int, idx as int) {
                        let jj = choose|jj: int|
                            0 <= jj < j && #[trigger] outputs@[jj].index == idx;
                        assert(outputs@[jj].index == outputs@[j as int].index);
                    }
                }
                assert(self@.entries[idx as int] == old(self)@.entries[idx as int]);
                assert(self@.entries[idx as int] == self.entries@[idx as int]@);
            }
            let ghost prev = self@;
            let path = self.entries[idx].path.clone();
            let ot = self.entries[idx].output_type;
            self.entries.set(idx, DeclaredEntry { path, output_type: ot, owner: Some(act) });
            proof {
                assert forall|i: int| 0 <= i < old(self)@.entries.len() implies #[trigger] self@
                    .entries[i] == (if outputs_contain(outputs@, j as int + 1, i) {
                    (EntryV {
                        path: old(self)@.entries[i].path,
                        output_type: old(self)@.entries[i].output_type,
                        owner: Some(act),
                    })
                } else {
                    old(self)@.entries[i]
                }) by {
                    assert(self@.entries[i] == self.entries@[i]@);
                    if i == idx as int {
                        assert(outputs@[j as int].index == i);
                        assert(outputs_contain(outputs@, j as int + 1, i));
                        assert(self.entries@[i]@.owner == Some(act));
                        assert(self.entries@[i]@.path == prev.entries[i].path);
                        assert(prev.entries[i] == old(self)@.entries[i]);
                    } else {
                        assert(self@.entries[i] == prev.entries[i]);
                        assert(prev.entries[i] == (if outputs_contain(outputs@, j as int, i) {
                            (EntryV {
                                path: old(self)@.entries[i].path,
                                output_type: old(self)@.entries[i].output_type,
                                owner: Some(act),
                            })
                        } else {
                            old(self)@.entries[i]
                        }));
                        if outputs_contain(outputs@, j as int, i) {
                            let jj = choose|jj: int|
                                0 <= jj < j && #[trigger] outputs@[jj].index == i;
                            assert(0 <= jj < j + 1 && outputs@[jj].index == i);
                            assert(outputs_contain(outputs@, j as int + 1, i));
                        }
                        if outputs_contain(outputs@, j as int + 1, i) {
                            let jj = choose|jj: int|
                                0 <= jj < j + 1 && #[trigger] outputs@[jj].index == i;
                            assert(jj != j);
                            assert(outputs_contain(outputs@, j as int, i));
                        }
                    }
                }
            }
            j = j + 1;
        }
        let record = ActionRecord { key, inputs, outputs: out_idxs, category };
        self.actions.push(record);
        proof {
            let post = self@;
            let pre = old(self)@;
            let new_action = ActionV {
                key,
                inputs: inputs@.map_values(|b: BaseArtifact| b@),
                outputs: outputs@.map_values(|o: OutputArtifact| o.index),
                category: category@,
            };
            assert(out_idxs@ =~= outputs@.map_values(|o: OutputArtifact| o.index));
            assert(post.actions =~= pre.actions.push(new_action));
            assert forall|i: int|
                0 <= i < pre.entries.len() && pre.entries[i].owner is Some implies #[trigger] post
                .entries[i] == pre.entries[i] by {
                if outputs_contain(outputs@, outputs@.len() as int, i) {
                    let jj = choose|jj: int|
                        0 <= jj < outputs@.len() && #[trigger] outputs@[jj].index == i;
                    assert(pre.entries[outputs@[jj].index as int].owner is None);
                }
            }
            assert(owners_preserved(pre.entries, post.entries));
            assert(post.wf()) by {
                assert forall|i: int, j_: int|
                    0 <= i < j_ < post.entries.len() implies #[trigger] post.entries[i].path
                    != #[trigger] post.entries[j_].path by {
                    assert(post.entries[i].path == pre.entries[i].path);
                    assert(post.entries[j_].path == pre.entries[j_].path);
                }
                assert forall|i: int|
                    0 <= i < post.entries.len() implies (#[trigger] post.entries[i].owner
                    matches Some(k) ==> k < post.actions.len()) by {
                    if post.entries[i].owner is Some {
                        if outputs_contain(outputs@, outputs@.len() as int, i) {
                            assert(post.entries[i].owner == Some(act));
                        } else {
                            assert(post.entries[i] == pre.entries[i]);
                        }
                    }
                }
                assert forall|k: int|
                    0 <= k < post.actions.len() implies #[trigger] post.actions[k].key
                    == (ActionKey { unit: post.unit.id, action: k as u64 }) by {
                    if k < pre.actions.len() {
                        assert(post.actions[k] == pre.actions[k]);
                    } else {
                        assert(post.actions[k] == new_action);
                    }
                }
                assert forall|k: int, j_: int|
                    0 <= k < post.actions.len() && 0 <= j_ < post.actions[k].outputs.len()
                    implies #[trigger] post.actions[k].outputs[j_] < post.entries.len()
                    && post.entries[post.actions[k].outputs[j_] as int].owner == Some(
                    k as u64,
                ) by {
                    if k < pre.actions.len() {
                        assert(post.actions[k] == pre.actions[k]);
                        let i = pre.actions[k].outputs[j_];
                        assert(pre.entries[i as int].owner == Some(k as u64));
                        if outputs_contain(outputs@, outputs@.len() as int, i as int) {
                            let jj = choose|jj: int|
                                0 <= jj < outputs@.len() && #[trigger] outputs@[jj].index
                                    == i as int;
                            assert(pre.entries[outputs@[jj].index as int].owner is None);
                        }
                        assert(post.entries[i as int] == pre.entries[i as int]);
                    } else {
                        assert(post.actions[k] == new_action);
                        let i = new_action.outputs[j_];
                        assert(i == outputs@[j_].index);
                        assert(outputs_contain(outputs@, outputs@.len() as int, i as int));
                        assert(post.entries[i as int].owner == Some(act));
                        assert(k == pre.actions.len());
                    }
                }
                assert forall|i: int|
                    0 <= i < post.entries.len() implies (#[trigger] post.entries[i].owner
                    matches Some(k) ==> post.actions[k as int].outputs.contains(i as u64)) by {
                    if post.entries[i].owner is Some {
                        if outputs_contain(outputs@, outputs@.len() as int, i) {
                            let jj = choose|jj: int|
                                0 <= jj < outputs@.len() && #[trigger] outputs@[jj].index == i;
                            assert(post.entries[i].owner == Some(act));
                            assert(new_action.outputs[jj] == i as u64);
                            assert(post.actions[act as int] == new_action);
                            assert(post.actions[act as int].outputs.contains(i as u64));
                        } else {
                            assert(post.entries[i] == pre.entries[i]);
                            let k = post.entries[i].owner->0;
                            assert(pre.actions[k as int].outputs.contains(i as u64));
                            assert(post.actions[k as int] == pre.actions[k as int]);
                        }
                    }
                }
            }
        }
        Ok(key)
    }

    /// The frozen form of `a`: a source artifact or an already frozen
    /// artifact unchanged, and a declared artifact as the bound output of its
    /// recorded producer.  Fails with
    /// [`ArtifactError::DeclaredArtifactWasNotBound`] exactly when no action
    /// ever listed `a` as an output.
    pub fn ensure_bound(&self, a: &BaseArtifact) -> (r: Result<BaseArtifact, ArtifactError>)
        requires
            self@.wf(),
            self@.local_declared(a@),
        ensures
            r is Err <==> a@ is Declared && self@.owner_of(a@) is None,
            r matches Err(e) ==> e == ArtifactError::DeclaredArtifactWasNotBound,
            a@ is Source || a@ is Bound ==> (r matches Ok(b) && b@ == a@),
            a@ matches ArtifactV::Declared { unit, index, path } ==> (self@.entries[
                index as int
            ].owner matches Some(k) ==> (r matches Ok(b) && b@ == (ArtifactV::Bound {
                unit,
                index,
                path,
                action: k,
            }))),
    {
        match a {
            BaseArtifact::Declared { unit, index, path } => {
                let n = self.entries.len();
                proof {
                    assert((*index) < self@.entries.len());
                    assert(self@.entries.len() == n);
                }
                let i = *index as usize;
                proof {
                    assert(self@.entries[i as int] == self.entries@[i as int]@);
                }
                match self.entries[i].owner {
                    Some(k) => Ok(
                        BaseArtifact::Bound {
                            unit: unit.duplicate(),
                            index: *index,
                            path: path.clone(),
                            action: k,
                        },
                    ),
                    None => Err(ArtifactError::DeclaredArtifactWasNotBound),
                }
            },
            _ => Ok(a.duplicate()),
        }
    }

    /// The declared artifacts that no registered action ever produced, in
    /// declaration order, reported at the end of the unit's analysis.
    pub fn finalize(&self) -> (r: Vec<BaseArtifact>)
        requires
            self@.wf(),
        ensures
            r@.map_values(|b: BaseArtifact| b@) == self@.unbound_artifacts(),
    {
        let n = self.entries.len();
        let mut r: Vec<BaseArtifact> = Vec::new();
        proof {
            assert(self@.entries.subrange(0, 0) =~= Seq::<EntryV>::empty());
            assert(r@.map_values(|b: BaseArtifact| b@) =~= Seq::<ArtifactV>::empty());
        }
        let mut i: usize = 0;
        while i < n
            invariant
                i <= n,
                n == self.entries.len(),
                self@.entries.len() == n,
                r@.map_values(|b: BaseArtifact| b@) == unbound_from(
                    self@.unit,
                    self@.entries.subrange(0, i as int),
                ),
            decreases n - i,
        {
            proof {
                assert(self@.entries[i as int] == self.entries@[i as int]@);
                assert(self@.entries.subrange(0, i as int + 1).drop_last() =~= self@
                    .entries.subrange(0, i as int));
                assert(self@.entries.subrange(0, i as int + 1).last() == self@.entries[
                    i as int
                ]);
            }
            match self.entries[i].owner {
                None => {
                    let a = BaseArtifact::Declared {
                        unit: self.unit.duplicate(),
                        index: i as u64,
                        path: self.entries[i].path.clone(),
                    };
                    r.push(a);
                    proof {
                        assert(r@.map_values(|b: BaseArtifact| b@) =~= unbound_from(
                            self@.unit,
                            self@.entries.subrange(0, i as int + 1),
                        ));
                    }
                },
                Some(_) => {},
            }
            i = i + 1;
        }
        proof {
            assert(self@.entries.subrange(0, n as int) =~= self@.entries);
        }
        r
    }
}

/// Binding is monotone: an owner, once recorded for an entry, survives every
/// operation that preserves owners — `declare` and `register` both do.
pub proof fn lemma_owner_permanent(pre: Seq<EntryV>, post: Seq<EntryV>, i: int, k: u64)
    requires
        owners_preserved(pre, post),
        0 <= i < pre.len(),
        pre[i].owner == Some(k),
    ensures
        post[i].owner == Some(k),
{
}

/// Owner preservation composes, so permanence holds across any chain of
/// registry operations.
pub proof fn lemma_owners_preserved_trans(a: Seq<EntryV>, b: Seq<EntryV>, c: Seq<EntryV>)
    requires
        owners_preserved(a, b),
        owners_preserved(b, c),
    ensures
        owners_preserved(a, c),
{
    assert forall|i: int|
        0 <= i < a.len() implies (#[trigger] a[i].owner matches Some(k) ==> c[i].owner == Some(
        k,
    )) by {
        if a[i].owner is Some {
            assert(b[i].owner == a[i].owner);
        }
    }
}

/// Once an entry is bound, every later registration that lists it as an
/// output has a bound output, so `register` refuses it with
/// [`ArtifactError::BoundArtifactAsOutput`] and binds nothing.
pub proof fn lemma_rebind_always_fails(
    bound: Seq<EntryV>,
    later: Seq<EntryV>,
    outputs: Seq<OutputArtifact>,
    i: u64,
    j: int,
)
    requires
        0 <= i < bound.len(),
        bound[i as int].owner is Some,
        owners_preserved(bound, later),
        0 <= j < outputs.len(),
        outputs[j].index == i,
    ensures
        has_bound_output(later, outputs),
{
    let k = bound[i as int].owner->0;
    assert(later[i as int].owner == Some(k));
    assert(later[outputs[j].index as int].owner is Some);
}

} // verus!
