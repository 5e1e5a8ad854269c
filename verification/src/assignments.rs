//! Per-draw resource assignments: a mapping from binding name to a concrete
//! resource value, and the content-derived identity of the set of values a
//! bind-group descriptor resolves to. Two assignment sets that bind the same
//! names to the same resources, offsets and ranges yield the same identity,
//! whatever order the assignments were inserted in; the identity changes
//! exactly when a resolved resource, offset or range changes.

use vstd::prelude::*;
use crate::binding::{BindGroupDescriptor, SpecBindGroup};
use crate::resource::RenderResource;

verus! {

/// The value assigned to one binding name: a texture, a sampler, or a buffer
/// with a byte range and, optionally, the index of a per-draw dynamic offset.
#[derive(Clone, Copy, Debug, PartialEq, Eq, Structural)]
pub enum RenderResourceAssignment {
    Texture(RenderResource),
    Sampler(RenderResource),
    Buffer { resource: RenderResource, range_start: u64, range_end: u64, dynamic_index: Option<u32> },
}

/// What a binding resolves to for identity purposes: the resource and, for
/// buffers, the byte range. The dynamic-offset index is applied at bind time
/// per draw and does not identify the bind group.
#[derive(Clone, Copy, Debug, PartialEq, Eq, Structural)]
pub enum BoundResource {
    Texture(RenderResource),
    Sampler(RenderResource),
    Buffer { resource: RenderResource, range_start: u64, range_end: u64 },
}

/// The identity-relevant part of an assignment.
pub open spec fn spec_bound_of(a: RenderResourceAssignment) -> BoundResource {
    match a {
        RenderResourceAssignment::Texture(r) => BoundResource::Texture(r),
        RenderResourceAssignment::Sampler(r) => BoundResource::Sampler(r),
        RenderResourceAssignment::Buffer { resource, range_start, range_end, dynamic_index } =>
            BoundResource::Buffer { resource, range_start, range_end },
    }
}

/// Computes the identity-relevant part of an assignment.
pub fn bound_of(a: &RenderResourceAssignment) -> (r: BoundResource)
    ensures
        r == spec_bound_of(*a),
{
    match a {
        RenderResourceAssignment::Texture(t) => BoundResource::Texture(*t),
        RenderResourceAssignment::Sampler(s) => BoundResource::Sampler(*s),
        RenderResourceAssignment::Buffer { resource, range_start, range_end, dynamic_index } =>
            BoundResource::Buffer {
                resource: *resource,
                range_start: *range_start,
                range_end: *range_end,
            },
    }
}

/// The content-derived identity of the resource set a bind-group descriptor
/// resolves to: the resolved value of each expected binding, in the
/// descriptor's binding order. It is the bind-group cache's lookup key.
#[derive(Clone, Debug, PartialEq, Eq)]
pub struct RenderResourceSetId {
    pub entries: Vec<BoundResource>,
}

impl View for RenderResourceSetId {
    type V = Seq<BoundResource>;

    open spec fn view(&self) -> Seq<BoundResource> {
        self.entries@
    }
}

/// Decides whether two set identities are the same.
pub fn set_id_eq(a: &RenderResourceSetId, b: &RenderResourceSetId) -> (r: bool)
    ensures
        r == (a@ == b@),
{
    if a.entries.len() != b.entries.len() {
        proof {
            assert(a@.len() != b@.len());
        }
        return false;
    }
    let mut i: usize = 0;
    while i < a.entries.len()
        invariant
            0 <= i <= a@.len(),
            a@.len() == b@.len(),
            forall|j: int| 0 <= j < i ==> a@[j] == b@[j],
        decreases a@.len() - i,
    {
        if a.entries[i] != b.entries[i] {
            return false;
        }
        i += 1;
    }
    proof {
        assert(a@ =~= b@);
    }
    true
}

/// A named mapping from binding name to assignment, owned per draw. Inserting
/// under an existing name replaces the previous assignment.
pub struct RenderResourceAssignments {
    pub entries: Vec<(String, RenderResourceAssignment)>,
}

impl View for RenderResourceAssignments {
    type V = Map<Seq<char>, RenderResourceAssignment>;

    /// The assignments viewed as a map from binding name to assignment; on a
    /// repeated name the later insertion wins.
    open spec fn view(&self) -> Map<Seq<char>, RenderResourceAssignment> {
        Self::spec_map_of(self.entries@.map_values(|e: (String, RenderResourceAssignment)| (e.0@, e.1)))
    }
}

/// The identity the descriptor's expected bindings resolve to under the
/// assignment map `m`: one resolved value per binding, in binding order; or
/// nothing, when some expected binding has no assignment.
pub open spec fn spec_resource_set_id(
    d: SpecBindGroup,
    m: Map<Seq<char>, RenderResourceAssignment>,
) -> Option<Seq<BoundResource>> {
    if forall|i: int| 0 <= i < d.bindings.len() ==> m.contains_key(#[trigger] d.bindings[i].name) {
        Some(Seq::new(d.bindings.len(), |i: int| spec_bound_of(m[d.bindings[i].name])))
    } else {
        None
    }
}

impl RenderResourceAssignments {
    /// The name-to-assignment map described by a sequence of entries.
    pub open spec fn spec_map_of(
        es: Seq<(Seq<char>, RenderResourceAssignment)>,
    ) -> Map<Seq<char>, RenderResourceAssignment>
        decreases es.len(),
    {
        if es.len() == 0 {
            Map::empty()
        } else {
            Self::spec_map_of(es.drop_last()).insert(es.last().0, es.last().1)
        }
    }

    pub fn new() -> (r: Self)
        ensures
            r@ == Map::<Seq<char>, RenderResourceAssignment>::empty(),
    {
        RenderResourceAssignments { entries: Vec::new() }
    }

    /// Assigns a value to a binding name, replacing any previous assignment.
    pub fn set(&mut self, name: String, assignment: RenderResourceAssignment)
        ensures
            final(self)@ == old(self)@.insert(name@, assignment),
    {
        let ghost n = name@;
        self.entries.push((name, assignment));
        proof {
            assert(self.entries@.map_values(|e: (String, RenderResourceAssignment)| (e.0@, e.1))
                .drop_last()
                =~= old(self).entries@.map_values(
                    |e: (String, RenderResourceAssignment)| (e.0@, e.1),
                ));
        }
    }

    /// Looks the assignment for a binding name up.
    pub fn get(&self, name: &String) -> (r: Option<&RenderResourceAssignment>)
        ensures
            match r {
                Some(a) => self@.contains_key(name@) && *a == self@[name@],
                None => !self@.contains_key(name@),
            },
    {
        let mut i: usize = self.entries.len();
        while i > 0
            invariant
                0 <= i <= self.entries@.len(),
                forall|j: int| i <= j < self.entries@.len() ==> self.entries@[j].0@ != name@,
            decreases i,
        {
            i -= 1;
            if self.entries[i].0 == *name {
                proof {
                    Self::lemma_map_of_found(
                        self.entries@.map_values(|e: (String, RenderResourceAssignment)| (e.0@, e.1)),
                        name@,
                        i as int,
                    );
                }
                return Some(&self.entries[i].1);
            }
        }
        proof {
            Self::lemma_map_of_absent(
                self.entries@.map_values(|e: (String, RenderResourceAssignment)| (e.0@, e.1)),
                name@,
            );
        }
        None
    }

    /// Resolves the identity of the resource set the descriptor's bindings
    /// name under these assignments. Nothing is returned exactly when some
    /// expected binding is unassigned: the set is not ready.
    pub fn render_resource_set_id(&self, descriptor: &BindGroupDescriptor) -> (r: Option<
        RenderResourceSetId,
    >)
        ensures
            match r {
                Some(id) => spec_resource_set_id(descriptor@, self@) == Some(id@),
                None => spec_resource_set_id(descriptor@, self@) is None,
            },
    {
        let mut entries: Vec<BoundResource> = Vec::new();
        let mut i: usize = 0;
        while i < descriptor.bindings.len()
            invariant
                0 <= i <= descriptor@.bindings.len(),
                descriptor@.bindings.len() == descriptor.bindings@.len(),
                forall|j: int| 0 <= j < descriptor@.bindings.len()
                    ==> #[trigger] descriptor@.bindings[j] == descriptor.bindings@[j]@,
                entries@.len() == i,
                forall|j: int| 0 <= j < i ==> self@.contains_key(
                    #[trigger] descriptor@.bindings[j].name,
                ),
                forall|j: int| 0 <= j < i ==> #[trigger] entries@[j] == spec_bound_of(
                    self@[descriptor@.bindings[j].name],
                ),
            decreases descriptor.bindings@.len() - i,
        {
            match self.get(&descriptor.bindings[i].name) {
                Some(assignment) => {
                    entries.push(bound_of(assignment));
                },
                None => {
                    proof {
                        assert(!self@.contains_key(descriptor@.bindings[i as int].name));
                    }
                    return None;
                },
            }
            i += 1;
        }
        let r = RenderResourceSetId { entries };
        proof {
            assert(r@ =~= Seq::new(
                descriptor@.bindings.len(),
                |i: int| spec_bound_of(self@[descriptor@.bindings[i].name]),
            ));
        }
        Some(r)
    }

    /// If index `i` holds the last occurrence of `name`, the map sends `name`
    /// to that entry's assignment.
    proof fn lemma_map_of_found(
        es: Seq<(Seq<char>, RenderResourceAssignment)>,
        name: Seq<char>,
        i: int,
    )
        requires
            0 <= i < es.len(),
            es[i].0 == name,
            forall|j: int| i < j < es.len() ==> es[j].0 != name,
        ensures
            Self::spec_map_of(es).contains_key(name),
            Self::spec_map_of(es)[name] == es[i].1,
        decreases es.len(),
    {
        if i < es.len() - 1 {
            Self::lemma_map_of_found(es.drop_last(), name, i);
        }
    }

    /// A name no entry carries is not in the map.
    proof fn lemma_map_of_absent(es: Seq<(Seq<char>, RenderResourceAssignment)>, name: Seq<char>)
        requires
            forall|j: int| 0 <= j < es.len() ==> es[j].0 != name,
        ensures
            !Self::spec_map_of(es).contains_key(name),
        decreases es.len(),
    {
        if es.len() > 0 {
            Self::lemma_map_of_absent(es.drop_last(), name);
        }
    }
}

/// Resolved-set identity is sensitive to every assignment's content: when two
/// assignment maps give a descriptor the same identity, every expected
/// binding resolves to the same resource, offset and range under both. So a
/// change to any one binding's resolved resource, offset or range changes the
/// identity.
pub proof fn lemma_set_id_sensitive(
    d: SpecBindGroup,
    m1: Map<Seq<char>, RenderResourceAssignment>,
    m2: Map<Seq<char>, RenderResourceAssignment>,
)
    requires
        spec_resource_set_id(d, m1) is Some,
        spec_resource_set_id(d, m1) == spec_resource_set_id(d, m2),
    ensures
        forall|i: int| 0 <= i < d.bindings.len() ==> spec_bound_of(
            m1[#[trigger] d.bindings[i].name],
        ) == spec_bound_of(m2[d.bindings[i].name]),
{
    let s1 = spec_resource_set_id(d, m1)->Some_0;
    let s2 = spec_resource_set_id(d, m2)->Some_0;
    assert forall|i: int| 0 <= i < d.bindings.len() implies spec_bound_of(
        m1[#[trigger] d.bindings[i].name],
    ) == spec_bound_of(m2[d.bindings[i].name]) by {
        assert(s1[i] == s2[i]);
    }
}

/// An element of one list is an element of any list with the same entries.
proof fn lemma_contains_transfer(
    a: Seq<(Seq<char>, RenderResourceAssignment)>,
    b: Seq<(Seq<char>, RenderResourceAssignment)>,
    x: (Seq<char>, RenderResourceAssignment),
)
    requires
        a.to_multiset() == b.to_multiset(),
        a.contains(x),
    ensures
        b.contains(x),
{
    a.to_multiset_ensures();
    b.to_multiset_ensures();
    assert(a.to_multiset().count(x) > 0);
    assert(b.to_multiset().count(x) > 0);
}

/// Any entry's name is a key of the described map.
proof fn lemma_map_of_covers(es: Seq<(Seq<char>, RenderResourceAssignment)>, i: int)
    requires
        0 <= i < es.len(),
    ensures
        RenderResourceAssignments::spec_map_of(es).contains_key(es[i].0),
    decreases es.len(),
{
    if i < es.len() - 1 {
        lemma_map_of_covers(es.drop_last(), i);
    }
}

/// Resolved-set identity ignores insertion order in general: two entry lists
/// holding the same (name, assignment) entries, each name bound once, in any
/// order, describe the same name-to-assignment mapping, and therefore resolve
/// the same identity for every bind-group descriptor.
pub proof fn lemma_insertion_order_irrelevant(
    es1: Seq<(Seq<char>, RenderResourceAssignment)>,
    es2: Seq<(Seq<char>, RenderResourceAssignment)>,
)
    requires
        es1.to_multiset() == es2.to_multiset(),
        forall|i: int, j: int| 0 <= i < j < es1.len() ==> (#[trigger] es1[i]).0 != (
        #[trigger] es1[j]).0,
    ensures
        RenderResourceAssignments::spec_map_of(es1) == RenderResourceAssignments::spec_map_of(es2),
        forall|d: SpecBindGroup| #[trigger] spec_resource_set_id(
            d,
            RenderResourceAssignments::spec_map_of(es1),
        ) == spec_resource_set_id(d, RenderResourceAssignments::spec_map_of(es2)),
{
    broadcast use vstd::multiset::group_multiset_axioms;

    es1.to_multiset_ensures();
    es2.to_multiset_ensures();
    assert forall|i: int, j: int|
        0 <= i < es1.len() && 0 <= j < es1.len() && i != j implies es1[i] != es1[j] by {
        if i < j {
            assert(es1[i].0 != es1[j].0);
        } else {
            assert(es1[j].0 != es1[i].0);
        }
    }
    es1.lemma_multiset_has_no_duplicates();
    assert forall|x: (Seq<char>, RenderResourceAssignment)|
        es2.to_multiset().contains(x) implies es2.to_multiset().count(x) == 1 by {
        assert(es1.to_multiset().count(x) == es2.to_multiset().count(x));
    }
    es2.lemma_multiset_has_no_duplicates_conv();
    assert forall|i: int, j: int|
        0 <= i < j < es2.len() implies (#[trigger] es2[i]).0 != (#[trigger] es2[j]).0 by {
        if es2[i].0 == es2[j].0 {
            assert(es2.contains(es2[i]));
            assert(es2.contains(es2[j]));
            lemma_contains_transfer(es2, es1, es2[i]);
            lemma_contains_transfer(es2, es1, es2[j]);
            let p = choose|p: int| 0 <= p < es1.len() && es1[p] == es2[i];
            let q = choose|q: int| 0 <= q < es1.len() && es1[q] == es2[j];
            assert(es2[i] != es2[j]);
            assert(p != q);
            assert(es1[p].0 == es1[q].0);
            assert(false);
        }
    }
    let m1 = RenderResourceAssignments::spec_map_of(es1);
    let m2 = RenderResourceAssignments::spec_map_of(es2);
    assert forall|n: Seq<char>| #[trigger] m1.dom().contains(n) implies m2.dom().contains(n)
        && m1[n] == m2[n] by {
        if forall|i: int| 0 <= i < es1.len() ==> (#[trigger] es1[i]).0 != n {
            RenderResourceAssignments::lemma_map_of_absent(es1, n);
        }
        let i = choose|i: int| 0 <= i < es1.len() && es1[i].0 == n;
        RenderResourceAssignments::lemma_map_of_found(es1, n, i);
        assert(es1.contains(es1[i]));
        lemma_contains_transfer(es1, es2, es1[i]);
        let j = choose|j: int| 0 <= j < es2.len() && es2[j] == es1[i];
        RenderResourceAssignments::lemma_map_of_found(es2, n, j);
    }
    assert forall|n: Seq<char>| #[trigger] m2.dom().contains(n) implies m1.dom().contains(n) by {
        if forall|j: int| 0 <= j < es2.len() ==> (#[trigger] es2[j]).0 != n {
            RenderResourceAssignments::lemma_map_of_absent(es2, n);
        }
        let j = choose|j: int| 0 <= j < es2.len() && es2[j].0 == n;
        assert(es2.contains(es2[j]));
        lemma_contains_transfer(es2, es1, es2[j]);
        let i = choose|i: int| 0 <= i < es1.len() && es1[i] == es2[j];
        lemma_map_of_covers(es1, i);
    }
    assert(m1.dom() =~= m2.dom());
    assert(m1 =~= m2);
}

/// Resolved-set identity does not depend on the order assignments were
/// inserted in: inserting two distinct names in either order leaves the same
/// mapping, and the identity is a function of the mapping alone.
pub proof fn lemma_assignment_order_irrelevant(
    m: Map<Seq<char>, RenderResourceAssignment>,
    n1: Seq<char>,
    a1: RenderResourceAssignment,
    n2: Seq<char>,
    a2: RenderResourceAssignment,
)
    requires
        n1 != n2,
    ensures
        m.insert(n1, a1).insert(n2, a2) == m.insert(n2, a2).insert(n1, a1),
{
    assert(m.insert(n1, a1).insert(n2, a2) =~= m.insert(n2, a2).insert(n1, a1));
}

} // verus!
