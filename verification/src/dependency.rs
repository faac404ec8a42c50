//! The dependency wrapper handed to a consuming rule: a configured
//! providers label together with the producer's provider collection, and
//! sub-target lookup within the producer's default output set.

use vstd::prelude::*;

verus! {

/// A configured providers label: a target such as `root//foo:bar` and the
/// chain of named sub-targets applied to it.
#[derive(Debug)]
pub struct Label {
    pub target: String,
    pub sub_target: Vec<String>,
}

/// Mathematical value of a [`Label`].
#[verifier::ext_equal]
pub struct LabelV {
    pub target: Seq<char>,
    pub sub_target: Seq<Seq<char>>,
}

impl View for Label {
    type V = LabelV;

    open spec fn view(&self) -> LabelV {
        LabelV {
            target: self.target@,
            sub_target: self.sub_target@.map_values(|s: String| s@),
        }
    }
}

/// `[name]` for each sub-target name, in order.
pub open spec fn bracketed(names: Seq<Seq<char>>) -> Seq<char>
    decreases names.len(),
{
    if names.len() == 0 {
        Seq::empty()
    } else {
        bracketed(names.drop_last()) + "["@ + names.last() + "]"@
    }
}

/// Copies of the given strings, in order.
fn dup_strings(v: &Vec<String>) -> (r: Vec<String>)
    ensures
        r@.map_values(|s: String| s@) == v@.map_values(|s: String| s@),
{
    let ghost view = v@.map_values(|s: String| s@);
    let n = v.len();
    let mut r: Vec<String> = Vec::new();
    let mut i: usize = 0;
    while i < n
        invariant
            i <= n,
            n == v.len(),
            view == v@.map_values(|s: String| s@),
            view.len() == n,
            r@.len() == i,
            forall|k: int| 0 <= k < i ==> (#[trigger] r@[k])@ == view[k],
        decreases n - i,
    {
        proof {
            assert(view[i as int] == v@[i as int]@);
        }
        r.push(v[i].clone());
        i = i + 1;
    }
    proof {
        let ghost rv = r@.map_values(|s: String| s@);
        assert forall|k: int| 0 <= k < n implies #[trigger] rv[k] == view[k] by {
            assert(rv[k] == r@[k]@);
        }
        assert(rv =~= view);
    }
    r
}

impl Label {
    /// A label for `target` with no sub-target chain.
    pub fn new(target: String) -> (r: Label)
        ensures
            r@.target == target@,
            r@.sub_target == Seq::<Seq<char>>::empty(),
    {
        let r = Label { target, sub_target: Vec::new() };
        proof {
            assert(r@.sub_target =~= Seq::<Seq<char>>::empty());
        }
        r
    }

    /// A value with the same identity.
    pub fn duplicate(&self) -> (r: Label)
        ensures
            r@ == self@,
    {
        let r = Label { target: self.target.clone(), sub_target: dup_strings(&self.sub_target) };
        proof {
            assert(r@ =~= self@);
        }
        r
    }

    /// This label with one more named sub-target.
    pub fn push(&self, name: &str) -> (r: Label)
        ensures
            r@.target == self@.target,
            r@.sub_target == self@.sub_target.push(name@),
    {
        let mut sub = dup_strings(&self.sub_target);
        sub.push(String::from_str(name));
        let r = Label { target: self.target.clone(), sub_target: sub };
        proof {
            assert(r@.sub_target =~= self@.sub_target.push(name@));
        }
        r
    }

    /// `target[a][b]...` for the sub-target chain `a, b, ...`.
    pub fn display_string(&self) -> (r: String)
        ensures
            r@ == self@.target + bracketed(self@.sub_target),
    {
        let mut r = self.target.clone();
        let n = self.sub_target.len();
        proof {
            assert(self@.sub_target.subrange(0, 0) =~= Seq::<Seq<char>>::empty());
            assert(r@ =~= self@.target + bracketed(self@.sub_target.subrange(0, 0)));
        }
        let mut i: usize = 0;
        while i < n
            invariant
                i <= n,
                n == self.sub_target.len(),
                self@.sub_target.len() == n,
                r@ == self@.target + bracketed(self@.sub_target.subrange(0, i as int)),
            decreases n - i,
        {
            proof {
                assert(self@.sub_target[i as int] == self.sub_target@[i as int]@);
            }
            r.append("[");
            r.append(self.sub_target[i].as_str());
            r.append("]");
            proof {
                assert(self@.sub_target.subrange(0, i + 1).drop_last() =~= self@
                    .sub_target.subrange(0, i as int));
                assert(self@.sub_target.subrange(0, i + 1).last() == self@.sub_target[
                    i as int
                ]);
                assert(r@ =~= self@.target + bracketed(self@.sub_target.subrange(0, i + 1)));
            }
            i = i + 1;
        }
        proof {
            assert(self@.sub_target.subrange(0, n as int) =~= self@.sub_target);
        }
        r
    }
}

/// One named sub-target of a producer's default output set, with the names
/// of the providers it offers.
#[derive(Debug)]
pub struct SubTarget {
    pub name: String,
    pub providers: Vec<String>,
}

/// Mathematical value of a [`SubTarget`].
#[verifier::ext_equal]
pub struct SubTargetV {
    pub name: Seq<char>,
    pub providers: Seq<Seq<char>>,
}

impl View for SubTarget {
    type V = SubTargetV;

    open spec fn view(&self) -> SubTargetV {
        SubTargetV {
            name: self.name@,
            providers: self.providers@.map_values(|s: String| s@),
        }
    }
}

/// What a producer's analysis exposes to its consumers: the names of its
/// providers, and the named sub-targets of its default output set.
#[derive(Debug)]
pub struct ProviderCollection {
    pub providers: Vec<String>,
    pub sub_targets: Vec<SubTarget>,
}

/// Mathematical value of a [`ProviderCollection`].
#[verifier::ext_equal]
pub struct ProviderCollectionV {
    pub providers: Seq<Seq<char>>,
    pub sub_targets: Seq<SubTargetV>,
}

impl View for ProviderCollection {
    type V = ProviderCollectionV;

    open spec fn view(&self) -> ProviderCollectionV {
        ProviderCollectionV {
            providers: self.providers@.map_values(|s: String| s@),
            sub_targets: self.sub_targets@.map_values(|s: SubTarget| s@),
        }
    }
}

/// The first sub-target named `name`, if any.
pub open spec fn find_sub(subs: Seq<SubTargetV>, name: Seq<char>) -> Option<SubTargetV>
    decreases subs.len(),
{
    if subs.len() == 0 {
        None
    } else if subs[0].name == name {
        Some(subs[0])
    } else {
        find_sub(subs.drop_first(), name)
    }
}

impl ProviderCollection {
    pub fn new(providers: Vec<String>, sub_targets: Vec<SubTarget>) -> (r: ProviderCollection)
        ensures
            r@.providers == providers@.map_values(|s: String| s@),
            r@.sub_targets == sub_targets@.map_values(|s: SubTarget| s@),
    {
        ProviderCollection { providers, sub_targets }
    }

    /// Whether a provider of this name is present.
    pub fn contains_provider(&self, name: &str) -> (r: bool)
        ensures
            r == self@.providers.contains(name@),
    {
        let n = self.providers.len();
        let mut i: usize = 0;
        while i < n
            invariant
                i <= n,
                n == self.providers.len(),
                self@.providers.len() == n,
                forall|j: int| 0 <= j < i ==> #[trigger] self@.providers[j] != name@,
            decreases n - i,
        {
            proof {
                assert(self@.providers[i as int] == self.providers@[i as int]@);
            }
            if crate::path::str_eq(self.providers[i].as_str(), name) {
                proof {
                    assert(self@.providers.contains(name@));
                }
                return true;
            }
            i = i + 1;
        }
        proof {
            assert(!self@.providers.contains(name@)) by {
                if self@.providers.contains(name@) {
                    let w = choose|w: int|
                        0 <= w < self@.providers.len() && self@.providers[w] == name@;
                }
            }
        }
        false
    }

    /// The first sub-target named `name`, if any.
    fn find_sub_target(&self, name: &str) -> (r: Option<&SubTarget>)
        ensures
            match r {
                Some(st) => find_sub(self@.sub_targets, name@) == Some(st@),
                None => find_sub(self@.sub_targets, name@) is None,
            },
    {
        let n = self.sub_targets.len();
        proof {
            assert(self@.sub_targets.subrange(0, n as int) =~= self@.sub_targets);
        }
        let mut i: usize = 0;
        while i < n
            invariant
                i <= n,
                n == self.sub_targets.len(),
                self@.sub_targets.len() == n,
                find_sub(self@.sub_targets, name@) == find_sub(
                    self@.sub_targets.subrange(i as int, n as int),
                    name@,
                ),
            decreases n - i,
        {
            proof {
                assert(self@.sub_targets[i as int] == self.sub_targets@[i as int]@);
                assert(self@.sub_targets.subrange(i as int, n as int)[0] == self@.sub_targets[
                    i as int
                ]);
            }
            if crate::path::str_eq(self.sub_targets[i].name.as_str(), name) {
                return Some(&self.sub_targets[i]);
            }
            proof {
                assert(self@.sub_targets.subrange(i as int, n as int).drop_first() =~= self@
                    .sub_targets.subrange(i + 1, n as int));
            }
            i = i + 1;
        }
        proof {
            assert(self@.sub_targets.subrange(n as int, n as int) =~= Seq::<SubTargetV>::empty());
        }
        None
    }
}

/// A failure of a dependency lookup.
#[derive(Debug)]
pub enum DependencyError {
    /// The requested named output does not exist in the producer's default
    /// output set.
    UnknownSubtarget(String),
}

impl DependencyError {
    pub fn message(&self) -> (r: String)
        ensures
            self matches DependencyError::UnknownSubtarget(name) ==> r@ == "Unknown subtarget, could not find `"@
                + name@ + "`"@,
    {
        match self {
            DependencyError::UnknownSubtarget(name) => {
                let mut r = String::from_str("Unknown subtarget, could not find `");
                r.append(name.as_str());
                r.append("`");
                proof {
                    assert(r@ =~= "Unknown subtarget, could not find `"@ + name@ + "`"@);
                }
                r
            },
        }
    }
}

/// A dependency's label and the result of its producer's analysis, wrapped
/// together for a consuming rule.
#[derive(Debug)]
pub struct DependencyGen {
    label: Label,
    providers_collection: ProviderCollection,
}

/// Mathematical value of a [`DependencyGen`].
#[verifier::ext_equal]
pub struct DependencyV {
    pub label: LabelV,
    pub providers_collection: ProviderCollectionV,
}

impl View for DependencyGen {
    type V = DependencyV;

    closed spec fn view(&self) -> DependencyV {
        DependencyV { label: self.label@, providers_collection: self.providers_collection@ }
    }
}

pub type Dependency = DependencyGen;

impl DependencyGen {
    pub fn new(label: Label, providers_collection: ProviderCollection) -> (r: DependencyGen)
        ensures
            r@.label == label@,
            r@.providers_collection == providers_collection@,
    {
        DependencyGen { label, providers_collection }
    }

    pub fn label(&self) -> (r: &Label)
        ensures
            r@ == self@.label,
    {
        &self.label
    }

    pub fn provider_collection(&self) -> (r: &ProviderCollection)
        ensures
            r@ == self@.providers_collection,
    {
        &self.providers_collection
    }

    /// The names of the providers the producer exposes.
    pub fn providers(&self) -> (r: &Vec<String>)
        ensures
            r@.map_values(|s: String| s@) == self@.providers_collection.providers,
    {
        &self.providers_collection.providers
    }

    /// Whether a provider of this name is in the underlying collection.
    pub fn is_in(&self, name: &str) -> (r: bool)
        ensures
            r == self@.providers_collection.providers.contains(name@),
    {
        self.providers_collection.contains_provider(name)
    }

    /// The dependency for the named sub-target: the same target with `name`
    /// pushed onto the sub-target chain, carrying that sub-target's
    /// providers.  Fails with [`DependencyError::UnknownSubtarget`] exactly
    /// when no sub-target of this name exists in the producer's default
    /// output set.
    pub fn sub_target(&self, name: &str) -> (r: Result<DependencyGen, DependencyError>)
        ensures
            r is Err <==> find_sub(self@.providers_collection.sub_targets, name@) is None,
            r matches Err(e) ==> (e matches DependencyError::UnknownSubtarget(n) && n@
                == name@),
            find_sub(self@.providers_collection.sub_targets, name@) matches Some(st) ==> (r
                matches Ok(d) && d@.label.target == self@.label.target && d@.label.sub_target
                == self@.label.sub_target.push(name@) && d@.providers_collection.providers
                == st.providers && d@.providers_collection.sub_targets == Seq::<
                SubTargetV,
            >::empty()),
    {
        match self.providers_collection.find_sub_target(name) {
            None => Err(DependencyError::UnknownSubtarget(String::from_str(name))),
            Some(st) => {
                let providers = dup_strings(&st.providers);
                let collection = ProviderCollection { providers, sub_targets: Vec::new() };
                let d = DependencyGen { label: self.label.push(name), providers_collection: collection };
                proof {
                    assert(d@.providers_collection.sub_targets =~= Seq::<SubTargetV>::empty());
                }
                Ok(d)
            },
        }
    }

    /// Diagnostic form: the label between angle brackets.
    pub fn display_string(&self) -> (r: String)
        ensures
            r@ == "<dependency "@ + self@.label.target + bracketed(self@.label.sub_target)
                + ">"@,
    {
        let mut r = String::from_str("<dependency ");
        let l = self.label.display_string();
        r.append(l.as_str());
        r.append(">");
        proof {
            assert(r@ =~= "<dependency "@ + self@.label.target + bracketed(
                self@.label.sub_target,
            ) + ">"@);
        }
        r
    }
}

} // verus!
