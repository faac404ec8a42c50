//! Associated artifacts: an ordered, deduplicated set of auxiliary
//! artifacts carried alongside a primary one, never part of its identity.

use vstd::prelude::*;

use crate::artifact::{artifact_eq, ArtifactError, ArtifactV, BaseArtifact};

verus! {

/// The deduplicating ordered union: `base`, then each element of `extra`
/// that is not already present, in `extra`'s order.
pub open spec fn append_new(base: Seq<ArtifactV>, extra: Seq<ArtifactV>) -> Seq<ArtifactV>
    decreases extra.len(),
{
    if extra.len() == 0 {
        base
    } else {
        let rest = append_new(base, extra.drop_last());
        if rest.contains(extra.last()) {
            rest
        } else {
            rest.push(extra.last())
        }
    }
}

/// No artifact occurs twice.
pub open spec fn distinct_artifacts(s: Seq<ArtifactV>) -> bool {
    forall|i: int, j: int| 0 <= i < j < s.len() ==> s[i] != s[j]
}

proof fn lemma_contains_split(s: Seq<ArtifactV>, x: ArtifactV)
    requires
        s.len() > 0,
    ensures
        s.contains(x) <==> s.drop_last().contains(x) || x == s.last(),
{
    if s.contains(x) {
        let i = choose|i: int| 0 <= i < s.len() && s[i] == x;
        if i < s.len() - 1 {
            assert(s.drop_last()[i] == x);
        }
    }
    if s.drop_last().contains(x) {
        let i = choose|i: int| 0 <= i < s.drop_last().len() && s.drop_last()[i] == x;
        assert(s[i] == x);
    }
    if x == s.last() {
        assert(s[s.len() - 1] == x);
    }
}

/// The union keeps `base`'s elements distinct and holds exactly the
/// artifacts of `base` and `extra` together: attaching adds every new
/// associated artifact once and drops duplicates by identity.
pub proof fn lemma_append_new_props(base: Seq<ArtifactV>, extra: Seq<ArtifactV>)
    requires
        distinct_artifacts(base),
    ensures
        distinct_artifacts(append_new(base, extra)),
        forall|x: ArtifactV|
            #[trigger] append_new(base, extra).contains(x) <==> base.contains(x)
                || extra.contains(x),
    decreases extra.len(),
{
    if extra.len() == 0 {
        assert forall|x: ArtifactV|
            #[trigger] append_new(base, extra).contains(x) <==> base.contains(x)
                || extra.contains(x) by {
            if extra.contains(x) {
                let i = choose|i: int| 0 <= i < extra.len() && extra[i] == x;
            }
        }
    } else {
        lemma_append_new_props(base, extra.drop_last());
        let rest = append_new(base, extra.drop_last());
        let l = extra.last();
        assert forall|x: ArtifactV|
            #[trigger] append_new(base, extra).contains(x) <==> base.contains(x)
                || extra.contains(x) by {
            lemma_contains_split(extra, x);
            if !rest.contains(l) {
                lemma_contains_split(rest.push(l), x);
                assert(rest.push(l).drop_last() =~= rest);
                assert(rest.push(l).last() == l);
            }
        }
        if !rest.contains(l) {
            assert forall|i: int, j: int|
                0 <= i < j < rest.push(l).len() implies rest.push(l)[i] != rest.push(l)[j] by {
                if j == rest.len() {
                    assert(rest.contains(rest[i]));
                }
            }
        }
    }
}

/// Whether some element of `items` has identity `a`.
fn vec_contains(items: &Vec<BaseArtifact>, a: &BaseArtifact) -> (r: bool)
    ensures
        r == items@.map_values(|b: BaseArtifact| b@).contains(a@),
{
    let ghost view = items@.map_values(|b: BaseArtifact| b@);
    let n = items.len();
    let mut i: usize = 0;
    while i < n
        invariant
            i <= n,
            n == items.len(),
            view == items@.map_values(|b: BaseArtifact| b@),
            forall|j: int| 0 <= j < i ==> view[j] != a@,
        decreases n - i,
    {
        proof {
            assert(view[i as int] == items@[i as int]@);
        }
        if artifact_eq(&items[i], a) {
            proof {
                assert(view.contains(a@));
            }
            return true;
        }
        i = i + 1;
    }
    proof {
        assert(!view.contains(a@)) by {
            if view.contains(a@) {
                let w = choose|w: int| 0 <= w < view.len() && view[w] == a@;
            }
        }
    }
    false
}

/// Copies of the given artifacts, in order.
fn vec_duplicate(items: &Vec<BaseArtifact>) -> (r: Vec<BaseArtifact>)
    ensures
        r@.map_values(|b: BaseArtifact| b@) == items@.map_values(|b: BaseArtifact| b@),
{
    let ghost view = items@.map_values(|b: BaseArtifact| b@);
    let n = items.len();
    let mut r: Vec<BaseArtifact> = Vec::new();
    let mut i: usize = 0;
    while i < n
        invariant
            i <= n,
            n == items.len(),
            view == items@.map_values(|b: BaseArtifact| b@),
            view.len() == n,
            r@.len() == i,
            forall|k: int| 0 <= k < i ==> (#[trigger] r@[k])@ == view[k],
        decreases n - i,
    {
        proof {
            assert(view[i as int] == items@[i as int]@);
        }
        r.push(items[i].duplicate());
        i = i + 1;
    }
    proof {
        let ghost rv = r@.map_values(|b: BaseArtifact| b@);
        assert forall|k: int| 0 <= k < n implies #[trigger] rv[k] == view[k] by {
            assert(rv[k] == r@[k]@);
            assert(r@[k]@ == view[k]);
        }
        assert(rv =~= view);
    }
    r
}

/// An ordered set of auxiliary artifacts, deduplicated by identity.  Sets
/// are immutable once built: every operation returns a new value.
pub struct AssociatedArtifacts {
    items: Vec<BaseArtifact>,
}

impl View for AssociatedArtifacts {
    type V = Seq<ArtifactV>;

    closed spec fn view(&self) -> Seq<ArtifactV> {
        self.items@.map_values(|b: BaseArtifact| b@)
    }
}

impl AssociatedArtifacts {
    pub open spec fn wf(self) -> bool {
        distinct_artifacts(self@)
    }

    /// The empty set.
    pub fn new() -> (r: AssociatedArtifacts)
        ensures
            r@ == Seq::<ArtifactV>::empty(),
            r.wf(),
    {
        let r = AssociatedArtifacts { items: Vec::new() };
        proof {
            assert(r@ =~= Seq::<ArtifactV>::empty());
        }
        r
    }

    /// The set of the given artifacts, first occurrences kept in order.
    pub fn from_artifacts(list: &Vec<BaseArtifact>) -> (r: AssociatedArtifacts)
        ensures
            r@ == append_new(
                Seq::<ArtifactV>::empty(),
                list@.map_values(|b: BaseArtifact| b@),
            ),
            r.wf(),
    {
        let empty = AssociatedArtifacts::new();
        let raw = AssociatedArtifacts { items: vec_duplicate(list) };
        empty.union(&raw)
    }

    pub fn len(&self) -> (r: usize)
        ensures
            r == self@.len(),
    {
        self.items.len()
    }

    pub fn get(&self, i: usize) -> (r: &BaseArtifact)
        requires
            i < self@.len(),
        ensures
            r@ == self@[i as int],
    {
        proof {
            assert(self@[i as int] == self.items@[i as int]@);
        }
        &self.items[i]
    }

    /// Whether `a` is in the set.
    pub fn contains(&self, a: &BaseArtifact) -> (r: bool)
        ensures
            r == self@.contains(a@),
    {
        vec_contains(&self.items, a)
    }

    /// This set, then every artifact of `extra` not already present, in
    /// order, duplicates dropped by identity.
    pub fn union(&self, extra: &AssociatedArtifacts) -> (r: AssociatedArtifacts)
        requires
            self.wf(),
        ensures
            r@ == append_new(self@, extra@),
            r.wf(),
    {
        let mut items = vec_duplicate(&self.items);
        proof {
            assert(extra@.subrange(0, 0) =~= Seq::<ArtifactV>::empty());
        }
        let m = extra.items.len();
        let mut j: usize = 0;
        while j < m
            invariant
                j <= m,
                m == extra.items.len(),
                extra@.len() == m,
                items@.map_values(|b: BaseArtifact| b@) == append_new(
                    self@,
                    extra@.subrange(0, j as int),
                ),
            decreases m - j,
        {
            proof {
                assert(extra@[j as int] == extra.items@[j as int]@);
                assert(extra@.subrange(0, j + 1).drop_last() =~= extra@.subrange(0, j as int));
                assert(extra@.subrange(0, j + 1).last() == extra@[j as int]);
            }
            let present = vec_contains(&items, &extra.items[j]);
            if !present {
                items.push(extra.items[j].duplicate());
                proof {
                    assert(items@.map_values(|b: BaseArtifact| b@) =~= append_new(
                        self@,
                        extra@.subrange(0, j as int),
                    ).push(extra@[j as int]));
                }
            }
            j = j + 1;
        }
        proof {
            assert(extra@.subrange(0, m as int) =~= extra@);
            lemma_append_new_props(self@, extra@);
        }
        AssociatedArtifacts { items }
    }
}

/// A primary artifact together with its associated set.  The set is a side
/// channel: it plays no part in the artifact's identity, binding state, or
/// resolution.
pub struct Artifact {
    pub base: BaseArtifact,
    pub assoc: AssociatedArtifacts,
}

impl Artifact {
    /// `base` with no associated artifacts.
    pub fn new(base: BaseArtifact) -> (r: Artifact)
        ensures
            r.base@ == base@,
            r.assoc@ == Seq::<ArtifactV>::empty(),
            r.assoc.wf(),
    {
        Artifact { base, assoc: AssociatedArtifacts::new() }
    }

    /// The same artifact carrying, after its present associates, every new
    /// artifact of `extra` in order.
    pub fn attach(&self, extra: &AssociatedArtifacts) -> (r: Artifact)
        requires
            self.assoc.wf(),
        ensures
            r.base@ == self.base@,
            r.assoc@ == append_new(self.assoc@, extra@),
            r.assoc.wf(),
    {
        Artifact { base: self.base.duplicate(), assoc: self.assoc.union(extra) }
    }

    /// The same artifact with an empty associated set; identity and binding
    /// state are untouched.
    pub fn strip(&self) -> (r: Artifact)
        ensures
            r.base@ == self.base@,
            r.assoc@ == Seq::<ArtifactV>::empty(),
            r.assoc.wf(),
    {
        Artifact { base: self.base.duplicate(), assoc: AssociatedArtifacts::new() }
    }

    /// Projection of the primary artifact.  The associated set is not
    /// inherited: a projected artifact starts with no associates unless the
    /// caller re-attaches them.
    pub fn project(&self, seg: &str, hide_prefix: bool) -> (r: Result<Artifact, ArtifactError>)
        ensures
            r is Err <==> !(self.base@ is Declared),
            self.base@ is Source ==> (r matches Err(e) && e == ArtifactError::NotProjectable),
            self.base@ is Bound ==> (r matches Err(e) && e == ArtifactError::CrossOwnerProjection),
            self.base@ matches ArtifactV::Declared { unit, index, path } ==> (r matches Ok(a)
                && a.base@ == (ArtifactV::Declared {
                unit,
                index,
                path: crate::path::projected_path(path, seg@, hide_prefix),
            }) && a.assoc@ == Seq::<ArtifactV>::empty() && a.assoc.wf()),
    {
        match self.base.project(seg, hide_prefix) {
            Ok(b) => Ok(Artifact { base: b, assoc: AssociatedArtifacts::new() }),
            Err(e) => Err(e),
        }
    }
}

} // verus!
