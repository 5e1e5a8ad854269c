//! Bind groups as a pipeline expects them: named, typed, indexed bindings,
//! grouped under a group index. A bind group's identity is the content of its
//! binding list, so that every pipeline or draw sharing a shape shares the
//! realized objects.

use vstd::prelude::*;
use crate::resource::TextureDimension;

verus! {

/// The kind of one binding. A `Uniform` whose `dynamic` flag is set receives
/// its byte offset per draw rather than at bind-group creation.
#[derive(Clone, Copy, Debug, PartialEq, Eq, Structural)]
pub enum BindType {
    Uniform { dynamic: bool },
    StorageBuffer { dynamic: bool, readonly: bool },
    SampledTexture { multisampled: bool, dimension: TextureDimension },
    Sampler,
}

/// One expected binding: its index within the group, its shader-visible name,
/// and its kind.
#[derive(Clone, Debug, PartialEq, Eq)]
pub struct BindingDescriptor {
    pub index: u32,
    pub name: String,
    pub bind_type: BindType,
}

/// Mathematical image of a `BindingDescriptor`.
pub ghost struct SpecBinding {
    pub index: u32,
    pub name: Seq<char>,
    pub bind_type: BindType,
}

impl View for BindingDescriptor {
    type V = SpecBinding;

    open spec fn view(&self) -> SpecBinding {
        SpecBinding { index: self.index, name: self.name@, bind_type: self.bind_type }
    }
}

/// The views of a sequence of bindings.
pub open spec fn spec_bindings_of(bs: Seq<BindingDescriptor>) -> Seq<SpecBinding> {
    Seq::new(bs.len(), |i: int| bs[i]@)
}

/// An ordered list of expected bindings under one group index. Its identity
/// is its content: two descriptors with equal views name the same shape.
#[derive(Clone, Debug, PartialEq, Eq)]
pub struct BindGroupDescriptor {
    pub index: u32,
    pub bindings: Vec<BindingDescriptor>,
}

/// Mathematical image of a `BindGroupDescriptor`.
pub ghost struct SpecBindGroup {
    pub index: u32,
    pub bindings: Seq<SpecBinding>,
}

impl View for BindGroupDescriptor {
    type V = SpecBindGroup;

    open spec fn view(&self) -> SpecBindGroup {
        SpecBindGroup { index: self.index, bindings: spec_bindings_of(self.bindings@) }
    }
}

/// The views of a sequence of bind-group descriptors.
pub open spec fn spec_bind_groups_of(gs: Seq<BindGroupDescriptor>) -> Seq<SpecBindGroup> {
    Seq::new(gs.len(), |i: int| gs[i]@)
}

/// Decides whether two bindings agree in index, name and type.
pub fn binding_eq(a: &BindingDescriptor, b: &BindingDescriptor) -> (r: bool)
    ensures
        r == (a@ == b@),
{
    let r = a.index == b.index && a.name == b.name && a.bind_type == b.bind_type;
    proof {
        if r {
            assert(a@ == b@);
        }
    }
    r
}

/// Decides whether two binding lists describe the same shape.
pub fn bindings_eq(a: &Vec<BindingDescriptor>, b: &Vec<BindingDescriptor>) -> (r: bool)
    ensures
        r == (spec_bindings_of(a@) == spec_bindings_of(b@)),
{
    let ghost av = spec_bindings_of(a@);
    let ghost bv = spec_bindings_of(b@);
    if a.len() != b.len() {
        proof {
            assert(av.len() != bv.len());
        }
        return false;
    }
    let mut i: usize = 0;
    while i < a.len()
        invariant
            0 <= i <= a@.len(),
            a@.len() == b@.len(),
            av == Seq::new(a@.len(), |j: int| a@[j]@),
            bv == Seq::new(b@.len(), |j: int| b@[j]@),
            forall|j: int| 0 <= j < i ==> av[j] == bv[j],
        decreases a@.len() - i,
    {
        if !binding_eq(&a[i], &b[i]) {
            proof {
                assert(av[i as int] != bv[i as int]);
            }
            return false;
        }
        i += 1;
    }
    proof {
        assert(av =~= bv);
    }
    true
}

/// Decides whether two bind-group descriptors have the same identity
/// (same group index and same binding shape).
pub fn bind_group_eq(a: &BindGroupDescriptor, b: &BindGroupDescriptor) -> (r: bool)
    ensures
        r == (a@ == b@),
{
    let r = a.index == b.index && bindings_eq(&a.bindings, &b.bindings);
    proof {
        if r {
            assert(a@ == b@);
        }
    }
    r
}

/// Copies a binding; the copy has the same view.
pub fn clone_binding(b: &BindingDescriptor) -> (r: BindingDescriptor)
    ensures
        r@ == b@,
{
    BindingDescriptor { index: b.index, name: b.name.clone(), bind_type: b.bind_type }
}

/// Copies a binding list; the copy has the same shape.
pub fn clone_bindings(bs: &Vec<BindingDescriptor>) -> (r: Vec<BindingDescriptor>)
    ensures
        spec_bindings_of(r@) == spec_bindings_of(bs@),
{
    let mut r: Vec<BindingDescriptor> = Vec::new();
    let mut i: usize = 0;
    while i < bs.len()
        invariant
            0 <= i <= bs@.len(),
            r@.len() == i,
            forall|j: int| 0 <= j < i ==> r@[j]@ == bs@[j]@,
        decreases bs@.len() - i,
    {
        r.push(clone_binding(&bs[i]));
        i += 1;
    }
    proof {
        assert(spec_bindings_of(r@) =~= spec_bindings_of(bs@));
    }
    r
}

/// Copies a bind-group descriptor; the copy has the same identity.
pub fn clone_bind_group(g: &BindGroupDescriptor) -> (r: BindGroupDescriptor)
    ensures
        r@ == g@,
{
    let r = BindGroupDescriptor { index: g.index, bindings: clone_bindings(&g.bindings) };
    proof {
        assert(r@ == g@);
    }
    r
}

} // verus!
