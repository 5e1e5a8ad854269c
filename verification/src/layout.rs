//! Pipeline layouts and the merge of per-stage shader layouts: bind groups
//! with the same group index are union-combined, a binding present in several
//! stages is one logical binding, and two stages disagreeing about a binding
//! index is a reported conflict, never a silent overwrite.

use vstd::prelude::*;
use crate::assignments::{RenderResourceAssignment, RenderResourceAssignments};
use crate::binding::{
    binding_eq, clone_bind_group, clone_binding, clone_bindings, spec_bind_groups_of,
    spec_bindings_of, BindGroupDescriptor, BindType, BindingDescriptor, SpecBindGroup,
    SpecBinding,
};
use crate::vertex::{
    clone_vertex_buffer, spec_vertex_buffers_of, SpecVertexBuffer, VertexBufferDescriptor,
    VertexBufferDescriptors,
};

verus! {

/// What one shader stage declares, as reported by the external bytecode
/// reflector: the bind groups it expects and, for a vertex stage, the vertex
/// buffers it reads.
#[derive(Debug, PartialEq, Eq)]
pub struct ShaderLayout {
    pub bind_groups: Vec<BindGroupDescriptor>,
    pub vertex_buffer_descriptors: Vec<VertexBufferDescriptor>,
}

/// Mathematical image of a `ShaderLayout`.
pub ghost struct SpecShaderLayout {
    pub bind_groups: Seq<SpecBindGroup>,
    pub vertex_buffer_descriptors: Seq<SpecVertexBuffer>,
}

impl View for ShaderLayout {
    type V = SpecShaderLayout;

    open spec fn view(&self) -> SpecShaderLayout {
        SpecShaderLayout {
            bind_groups: spec_bind_groups_of(self.bind_groups@),
            vertex_buffer_descriptors: spec_vertex_buffers_of(self.vertex_buffer_descriptors@),
        }
    }
}

/// A pipeline's derived layout: the merged bind groups of its stages and its
/// vertex-buffer layouts.
#[derive(Debug, PartialEq, Eq)]
pub struct PipelineLayout {
    pub bind_groups: Vec<BindGroupDescriptor>,
    pub vertex_buffer_descriptors: Vec<VertexBufferDescriptor>,
}

/// Mathematical image of a `PipelineLayout`.
pub ghost struct SpecPipelineLayout {
    pub bind_groups: Seq<SpecBindGroup>,
    pub vertex_buffer_descriptors: Seq<SpecVertexBuffer>,
}

impl View for PipelineLayout {
    type V = SpecPipelineLayout;

    open spec fn view(&self) -> SpecPipelineLayout {
        SpecPipelineLayout {
            bind_groups: spec_bind_groups_of(self.bind_groups@),
            vertex_buffer_descriptors: spec_vertex_buffers_of(self.vertex_buffer_descriptors@),
        }
    }
}

/// Two shader stages disagree about the binding at `binding_index` within the
/// bind group at `group_index`: same indices, different name or type.
#[derive(Clone, Copy, Debug, PartialEq, Eq, Structural)]
pub struct LayoutConflict {
    pub group_index: u32,
    pub binding_index: u32,
}

/// Inserting one stage-declared binding into a merged binding list, scanning
/// from position `i`: an existing binding with the same index must agree
/// exactly (one logical binding), a disagreement is a conflict, and a new
/// index is appended.
pub open spec fn spec_insert_binding_from(
    bs: Seq<SpecBinding>,
    b: SpecBinding,
    i: int,
) -> Option<Seq<SpecBinding>>
    decreases bs.len() - i
        when 0 <= i <= bs.len()
{
    if i == bs.len() {
        Some(bs.push(b))
    } else if bs[i].index == b.index {
        if bs[i] == b {
            Some(bs)
        } else {
            None
        }
    } else {
        spec_insert_binding_from(bs, b, i + 1)
    }
}

pub open spec fn spec_insert_binding(bs: Seq<SpecBinding>, b: SpecBinding) -> Option<
    Seq<SpecBinding>,
> {
    spec_insert_binding_from(bs, b, 0)
}

/// Folding every binding of `inc`, from position `i` on, into `bs`.
pub open spec fn spec_merge_bindings_from(
    bs: Option<Seq<SpecBinding>>,
    inc: Seq<SpecBinding>,
    i: int,
) -> Option<Seq<SpecBinding>>
    decreases inc.len() - i
        when 0 <= i <= inc.len()
{
    match bs {
        Option::None => Option::None,
        Option::Some(cur) => if i == inc.len() {
            Option::Some(cur)
        } else {
            spec_merge_bindings_from(spec_insert_binding(cur, inc[i]), inc, i + 1)
        },
    }
}

pub open spec fn spec_merge_bindings(bs: Seq<SpecBinding>, inc: Seq<SpecBinding>) -> Option<
    Seq<SpecBinding>,
> {
    spec_merge_bindings_from(Some(bs), inc, 0)
}

/// Inserting one stage-declared bind group into the merged list, scanning from
/// position `i`: a group with the same index union-combines the bindings, a
/// new index is appended.
pub open spec fn spec_insert_group_from(
    gs: Seq<SpecBindGroup>,
    g: SpecBindGroup,
    i: int,
) -> Option<Seq<SpecBindGroup>>
    decreases gs.len() - i
        when 0 <= i <= gs.len()
{
    if i == gs.len() {
        Some(gs.push(g))
    } else if gs[i].index == g.index {
        match spec_merge_bindings(gs[i].bindings, g.bindings) {
            Option::Some(bs) => Option::Some(
                gs.update(i, SpecBindGroup { index: gs[i].index, bindings: bs }),
            ),
            Option::None => Option::None,
        }
    } else {
        spec_insert_group_from(gs, g, i + 1)
    }
}

pub open spec fn spec_insert_group(gs: Seq<SpecBindGroup>, g: SpecBindGroup) -> Option<
    Seq<SpecBindGroup>,
> {
    spec_insert_group_from(gs, g, 0)
}

/// Folding every bind group of `inc`, from position `i` on, into `gs`.
pub open spec fn spec_merge_groups_from(
    gs: Option<Seq<SpecBindGroup>>,
    inc: Seq<SpecBindGroup>,
    i: int,
) -> Option<Seq<SpecBindGroup>>
    decreases inc.len() - i
        when 0 <= i <= inc.len()
{
    match gs {
        Option::None => Option::None,
        Option::Some(cur) => if i == inc.len() {
            Option::Some(cur)
        } else {
            spec_merge_groups_from(spec_insert_group(cur, inc[i]), inc, i + 1)
        },
    }
}

pub open spec fn spec_merge_groups(gs: Seq<SpecBindGroup>, inc: Seq<SpecBindGroup>) -> Option<
    Seq<SpecBindGroup>,
> {
    spec_merge_groups_from(Some(gs), inc, 0)
}

/// Folding the bind groups of every stage layout, from layout `i` on.
pub open spec fn spec_merge_layouts_from(
    gs: Option<Seq<SpecBindGroup>>,
    ls: Seq<SpecShaderLayout>,
    i: int,
) -> Option<Seq<SpecBindGroup>>
    decreases ls.len() - i
        when 0 <= i <= ls.len()
{
    match gs {
        Option::None => Option::None,
        Option::Some(cur) => if i == ls.len() {
            Option::Some(cur)
        } else {
            spec_merge_layouts_from(spec_merge_groups(cur, ls[i].bind_groups), ls, i + 1)
        },
    }
}

/// The pipeline layout a sequence of per-stage layouts merges to, the vertex
/// stage first: the union-combined bind groups, and the vertex stage's
/// vertex-buffer descriptors. Nothing is returned exactly when two stages
/// conflict.
pub open spec fn spec_from_shader_layouts(ls: Seq<SpecShaderLayout>) -> Option<SpecPipelineLayout>
    recommends
        ls.len() >= 1,
{
    match spec_merge_layouts_from(Some(Seq::empty()), ls, 0) {
        Option::None => Option::None,
        Option::Some(gs) => Option::Some(
            SpecPipelineLayout {
                bind_groups: gs,
                vertex_buffer_descriptors: ls[0].vertex_buffer_descriptors,
            },
        ),
    }
}

/// Merges one stage-declared binding into a merged binding list; `Err`
/// carries the binding index of a conflict.
fn insert_binding(bs: &Vec<BindingDescriptor>, b: &BindingDescriptor) -> (r: Result<
    Vec<BindingDescriptor>,
    u32,
>)
    ensures
        match r {
            Result::Ok(out) => Some(spec_bindings_of(out@)) == spec_insert_binding(
                spec_bindings_of(bs@),
                b@,
            ),
            Result::Err(idx) => spec_insert_binding(spec_bindings_of(bs@), b@) is None && idx
                == b.index,
        },
{
    let ghost bv = spec_bindings_of(bs@);
    let mut i: usize = 0;
    while i < bs.len()
        invariant
            0 <= i <= bs@.len(),
            bv == spec_bindings_of(bs@),
            spec_insert_binding(bv, b@) == spec_insert_binding_from(bv, b@, i as int),
        decreases bs@.len() - i,
    {
        if bs[i].index == b.index {
            if binding_eq(&bs[i], b) {
                proof {
                    assert(bv[i as int] == b@);
                }
                return Ok(clone_bindings(bs));
            } else {
                proof {
                    assert(bv[i as int] != b@);
                    assert(bv[i as int].index == b@.index);
                }
                return Err(b.index);
            }
        }
        proof {
            assert(bv[i as int].index != b@.index);
        }
        i += 1;
    }
    let mut out = clone_bindings(bs);
    out.push(clone_binding(b));
    proof {
        assert(spec_bindings_of(out@) =~= bv.push(b@));
    }
    Ok(out)
}

/// Union-combines the bindings of a second stage's group into a merged
/// binding list.
fn merge_bindings(bs: &Vec<BindingDescriptor>, inc: &Vec<BindingDescriptor>) -> (r: Result<
    Vec<BindingDescriptor>,
    u32,
>)
    ensures
        match r {
            Result::Ok(out) => Some(spec_bindings_of(out@)) == spec_merge_bindings(
                spec_bindings_of(bs@),
                spec_bindings_of(inc@),
            ),
            Result::Err(idx) => spec_merge_bindings(spec_bindings_of(bs@), spec_bindings_of(inc@))
                is None,
        },
{
    let ghost bv = spec_bindings_of(bs@);
    let ghost iv = spec_bindings_of(inc@);
    let mut cur = clone_bindings(bs);
    let mut j: usize = 0;
    while j < inc.len()
        invariant
            0 <= j <= inc@.len(),
            bv == spec_bindings_of(bs@),
            iv == spec_bindings_of(inc@),
            spec_merge_bindings(bv, iv) == spec_merge_bindings_from(
                Some(spec_bindings_of(cur@)),
                iv,
                j as int,
            ),
        decreases inc@.len() - j,
    {
        let ghost curv = spec_bindings_of(cur@);
        proof {
            assert(iv[j as int] == inc@[j as int]@);
        }
        match insert_binding(&cur, &inc[j]) {
            Result::Ok(next) => {
                cur = next;
                proof {
                    assert(spec_merge_bindings_from(Some(curv), iv, j as int)
                        == spec_merge_bindings_from(
                        spec_insert_binding(curv, iv[j as int]),
                        iv,
                        j as int + 1,
                    ));
                }
            },
            Result::Err(idx) => {
                proof {
                    assert(spec_insert_binding(curv, iv[j as int]) is None);
                    assert(spec_merge_bindings_from(Some(curv), iv, j as int)
                        == spec_merge_bindings_from(
                        None::<Seq<SpecBinding>>,
                        iv,
                        j as int + 1,
                    ));
                    assert(spec_merge_bindings_from(None::<Seq<SpecBinding>>, iv, j as int + 1)
                        is None);
                }
                return Err(idx);
            },
        }
        j += 1;
    }
    Ok(cur)
}

/// Merges one stage-declared bind group into the merged group list.
fn insert_group(gs: &Vec<BindGroupDescriptor>, g: &BindGroupDescriptor) -> (r: Result<
    Vec<BindGroupDescriptor>,
    LayoutConflict,
>)
    ensures
        match r {
            Result::Ok(out) => Some(spec_bind_groups_of(out@)) == spec_insert_group(
                spec_bind_groups_of(gs@),
                g@,
            ),
            Result::Err(c) => spec_insert_group(spec_bind_groups_of(gs@), g@) is None
                && c.group_index == g.index,
        },
{
    let ghost gv = spec_bind_groups_of(gs@);
    let mut i: usize = 0;
    while i < gs.len()
        invariant
            0 <= i <= gs@.len(),
            gv == spec_bind_groups_of(gs@),
            spec_insert_group(gv, g@) == spec_insert_group_from(gv, g@, i as int),
        decreases gs@.len() - i,
    {
        if gs[i].index == g.index {
            let ghost gv_i = gv[i as int];
            proof {
                assert(gv_i.index == g@.index);
                assert(gv_i.bindings == spec_bindings_of(gs@[i as int].bindings@));
            }
            match merge_bindings(&gs[i].bindings, &g.bindings) {
                Result::Ok(bs) => {
                    let ghost bsv = spec_bindings_of(bs@);
                    proof {
                        assert(spec_merge_bindings(gv_i.bindings, g@.bindings) == Some(bsv));
                    }
                    let mut out: Vec<BindGroupDescriptor> = Vec::new();
                    let mut k: usize = 0;
                    while k < gs.len()
                        invariant
                            0 <= k <= gs@.len(),
                            0 <= i < gs@.len(),
                            out@.len() == k,
                            forall|m: int| 0 <= m < k && m != i ==> out@[m]@ == gs@[m]@,
                            (i < k) ==> out@[i as int]@ == (SpecBindGroup {
                                index: gs@[i as int]@.index,
                                bindings: bsv,
                            }),
                            bsv == spec_bindings_of(bs@),
                        decreases gs@.len() - k,
                    {
                        if k == i {
                            out.push(
                                BindGroupDescriptor {
                                    index: gs[i].index,
                                    bindings: clone_bindings(&bs),
                                },
                            );
                        } else {
                            out.push(clone_bind_group(&gs[k]));
                        }
                        k += 1;
                    }
                    let ghost target = SpecBindGroup { index: gv_i.index, bindings: bsv };
                    proof {
                        assert(spec_bind_groups_of(out@) =~= gv.update(i as int, target));
                        assert(spec_insert_group_from(gv, g@, i as int) == Some(
                            gv.update(i as int, target),
                        ));
                    }
                    return Ok(out);
                },
                Result::Err(idx) => {
                    proof {
                        assert(spec_merge_bindings(gv_i.bindings, g@.bindings) is None);
                        assert(spec_insert_group_from(gv, g@, i as int) is None);
                    }
                    return Err(LayoutConflict { group_index: g.index, binding_index: idx });
                },
            }
        }
        proof {
            assert(gv[i as int].index != g@.index);
        }
        i += 1;
    }
    let mut out: Vec<BindGroupDescriptor> = Vec::new();
    let mut k: usize = 0;
    while k < gs.len()
        invariant
            0 <= k <= gs@.len(),
            out@.len() == k,
            forall|m: int| 0 <= m < k ==> out@[m]@ == gs@[m]@,
        decreases gs@.len() - k,
    {
        out.push(clone_bind_group(&gs[k]));
        k += 1;
    }
    out.push(clone_bind_group(g));
    proof {
        assert(spec_bind_groups_of(out@) =~= gv.push(g@));
    }
    Ok(out)
}

impl PipelineLayout {
    /// Merges per-stage layouts, the vertex stage first, into one pipeline
    /// layout; reports the first conflict between stages instead of silently
    /// preferring either.
    pub fn from_shader_layouts(layouts: &Vec<ShaderLayout>) -> (r: Result<
        PipelineLayout,
        LayoutConflict,
    >)
        requires
            layouts@.len() >= 1,
        ensures
            match r {
                Result::Ok(l) => Some(l@) == spec_from_shader_layouts(
                    Seq::new(layouts@.len(), |i: int| layouts@[i]@),
                ),
                Result::Err(c) => spec_from_shader_layouts(
                    Seq::new(layouts@.len(), |i: int| layouts@[i]@),
                ) is None,
            },
    {
        let ghost lv = Seq::new(layouts@.len(), |i: int| layouts@[i]@);
        let mut groups: Vec<BindGroupDescriptor> = Vec::new();
        proof {
            assert(spec_bind_groups_of(groups@) =~= Seq::<SpecBindGroup>::empty());
        }
        let mut i: usize = 0;
        while i < layouts.len()
            invariant
                0 <= i <= layouts@.len(),
                lv == Seq::new(layouts@.len(), |k: int| layouts@[k]@),
                spec_merge_layouts_from(Some(Seq::empty()), lv, 0) == spec_merge_layouts_from(
                    Some(spec_bind_groups_of(groups@)),
                    lv,
                    i as int,
                ),
            decreases layouts@.len() - i,
        {
            let ghost gv = spec_bind_groups_of(groups@);
            let layout_groups = &layouts[i].bind_groups;
            let ghost lgv = spec_bind_groups_of(layout_groups@);
            proof {
                assert(lv[i as int].bind_groups == lgv);
            }
            let mut j: usize = 0;
            while j < layout_groups.len()
                invariant
                    0 <= j <= layout_groups@.len(),
                    0 <= i < lv.len(),
                    lv == Seq::new(layouts@.len(), |k: int| layouts@[k]@),
                    lgv == spec_bind_groups_of(layout_groups@),
                    lv[i as int].bind_groups == lgv,
                    spec_merge_layouts_from(Some(Seq::empty()), lv, 0)
                        == spec_merge_layouts_from(Some(gv), lv, i as int),
                    spec_merge_groups(gv, lgv) == spec_merge_groups_from(
                        Some(spec_bind_groups_of(groups@)),
                        lgv,
                        j as int,
                    ),
                decreases layout_groups@.len() - j,
            {
                let ghost curv = spec_bind_groups_of(groups@);
                proof {
                    assert(lgv[j as int] == layout_groups@[j as int]@);
                }
                match insert_group(&groups, &layout_groups[j]) {
                    Result::Ok(next) => {
                        groups = next;
                        proof {
                            assert(spec_merge_groups_from(Some(curv), lgv, j as int)
                                == spec_merge_groups_from(
                                spec_insert_group(curv, lgv[j as int]),
                                lgv,
                                j as int + 1,
                            ));
                        }
                    },
                    Result::Err(c) => {
                        proof {
                            assert(spec_insert_group(curv, lgv[j as int]) is None);
                            assert(spec_merge_groups_from(Some(curv), lgv, j as int)
                                == spec_merge_groups_from(
                                None::<Seq<SpecBindGroup>>,
                                lgv,
                                j as int + 1,
                            ));
                            assert(spec_merge_groups_from(
                                None::<Seq<SpecBindGroup>>,
                                lgv,
                                j as int + 1,
                            ) is None);
                            assert(spec_merge_groups(gv, lgv) is None);
                            assert(spec_merge_layouts_from(Some(gv), lv, i as int)
                                == spec_merge_layouts_from(
                                spec_merge_groups(gv, lv[i as int].bind_groups),
                                lv,
                                i as int + 1,
                            ));
                            assert(spec_merge_layouts_from(
                                None::<Seq<SpecBindGroup>>,
                                lv,
                                i as int + 1,
                            ) is None);
                            assert(spec_from_shader_layouts(lv) is None);
                        }
                        return Err(c);
                    },
                }
                j += 1;
            }
            proof {
                assert(spec_merge_groups(gv, lgv) == Some(spec_bind_groups_of(groups@)));
                assert(spec_merge_layouts_from(Some(gv), lv, i as int)
                    == spec_merge_layouts_from(
                    spec_merge_groups(gv, lv[i as int].bind_groups),
                    lv,
                    i as int + 1,
                ));
            }
            i += 1;
        }
        let mut vertex_buffer_descriptors: Vec<VertexBufferDescriptor> = Vec::new();
        let source = &layouts[0].vertex_buffer_descriptors;
        let mut k: usize = 0;
        while k < source.len()
            invariant
                0 <= k <= source@.len(),
                vertex_buffer_descriptors@.len() == k,
                forall|j: int| 0 <= j < k ==> vertex_buffer_descriptors@[j]@ == source@[j]@,
            decreases source@.len() - k,
        {
            vertex_buffer_descriptors.push(clone_vertex_buffer(&source[k]));
            k += 1;
        }
        let r = PipelineLayout { bind_groups: groups, vertex_buffer_descriptors };
        proof {
            assert(r@.vertex_buffer_descriptors =~= lv[0].vertex_buffer_descriptors);
        }
        Ok(r)
    }

    /// Replaces each reflected vertex-buffer layout that an externally
    /// supplied collection also names: the external layout is authoritative
    /// for stride and attributes; reflection only determines which buffers
    /// exist.
    pub fn sync_vertex_buffer_descriptors(&mut self, overrides: &VertexBufferDescriptors)
        ensures
            final(self)@.bind_groups == old(self)@.bind_groups,
            final(self)@.vertex_buffer_descriptors == spec_sync_vertex_buffers(
                old(self)@.vertex_buffer_descriptors,
                overrides@,
            ),
    {
        let ghost before = self@.vertex_buffer_descriptors;
        let mut synced: Vec<VertexBufferDescriptor> = Vec::new();
        let mut i: usize = 0;
        while i < self.vertex_buffer_descriptors.len()
            invariant
                0 <= i <= self.vertex_buffer_descriptors@.len(),
                before == spec_vertex_buffers_of(self.vertex_buffer_descriptors@),
                synced@.len() == i,
                forall|j: int| 0 <= j < i ==> synced@[j]@ == (if overrides@.contains_key(
                    before[j].name,
                ) {
                    overrides@[before[j].name]
                } else {
                    before[j]
                }),
            decreases self.vertex_buffer_descriptors@.len() - i,
        {
            match overrides.get(&self.vertex_buffer_descriptors[i].name) {
                Option::Some(d) => {
                    synced.push(clone_vertex_buffer(d));
                },
                Option::None => {
                    synced.push(clone_vertex_buffer(&self.vertex_buffer_descriptors[i]));
                },
            }
            i += 1;
        }
        self.vertex_buffer_descriptors = synced;
        proof {
            assert(final(self)@.vertex_buffer_descriptors =~= spec_sync_vertex_buffers(
                before,
                overrides@,
            ));
        }
    }

    /// Promotes to `dynamic` every uniform binding whose name an assignment
    /// set binds to a buffer carrying a dynamic-offset index: once any draw
    /// sharing the pipeline addresses the binding dynamically, all draws
    /// must, because the flag is a property of the pipeline, not of one draw.
    pub fn promote_dynamic_bindings(&mut self, assignments: &RenderResourceAssignments)
        ensures
            final(self)@.vertex_buffer_descriptors == old(self)@.vertex_buffer_descriptors,
            final(self)@.bind_groups == spec_promote_groups(old(self)@.bind_groups, assignments@),
    {
        let ghost before = self@.bind_groups;
        let mut promoted: Vec<BindGroupDescriptor> = Vec::new();
        let mut i: usize = 0;
        while i < self.bind_groups.len()
            invariant
                0 <= i <= self.bind_groups@.len(),
                before == spec_bind_groups_of(self.bind_groups@),
                promoted@.len() == i,
                forall|j: int| 0 <= j < i ==> promoted@[j]@ == spec_promote_group(
                    before[j],
                    assignments@,
                ),
            decreases self.bind_groups@.len() - i,
        {
            let group = &self.bind_groups[i];
            let mut bindings: Vec<BindingDescriptor> = Vec::new();
            let mut j: usize = 0;
            while j < group.bindings.len()
                invariant
                    0 <= j <= group.bindings@.len(),
                    bindings@.len() == j,
                    forall|k: int| 0 <= k < j ==> bindings@[k]@ == spec_promote_binding(
                        group.bindings@[k]@,
                        assignments@,
                    ),
                decreases group.bindings@.len() - j,
            {
                let b = &group.bindings[j];
                let is_dynamic_buffer = match assignments.get(&b.name) {
                    Option::Some(RenderResourceAssignment::Buffer {
                        dynamic_index: Option::Some(_),
                        ..
                    }) => true,
                    _ => false,
                };
                let is_uniform = match b.bind_type {
                    BindType::Uniform { .. } => true,
                    _ => false,
                };
                if is_dynamic_buffer && is_uniform {
                    bindings.push(
                        BindingDescriptor {
                            index: b.index,
                            name: b.name.clone(),
                            bind_type: BindType::Uniform { dynamic: true },
                        },
                    );
                } else {
                    bindings.push(clone_binding(b));
                }
                j += 1;
            }
            promoted.push(BindGroupDescriptor { index: group.index, bindings });
            proof {
                assert(promoted@.last()@.bindings =~= spec_promote_group(
                    before[i as int],
                    assignments@,
                ).bindings);
            }
            i += 1;
        }
        self.bind_groups = promoted;
        proof {
            assert(final(self)@.bind_groups =~= spec_promote_groups(before, assignments@));
        }
    }
}

/// Whether an assignment is a buffer with a per-draw dynamic-offset index.
pub open spec fn spec_is_dynamic_buffer(a: RenderResourceAssignment) -> bool {
    a matches RenderResourceAssignment::Buffer { dynamic_index: Some(_), .. }
}

/// One binding after the dynamic-promotion pass: a uniform binding whose name
/// is assigned a dynamic buffer becomes dynamic; every other binding is left
/// as reflected.
pub open spec fn spec_promote_binding(
    b: SpecBinding,
    m: Map<Seq<char>, RenderResourceAssignment>,
) -> SpecBinding {
    if m.contains_key(b.name) && spec_is_dynamic_buffer(m[b.name]) && (b.bind_type
        matches BindType::Uniform { .. }) {
        SpecBinding { index: b.index, name: b.name, bind_type: BindType::Uniform { dynamic: true } }
    } else {
        b
    }
}

pub open spec fn spec_promote_group(
    g: SpecBindGroup,
    m: Map<Seq<char>, RenderResourceAssignment>,
) -> SpecBindGroup {
    SpecBindGroup {
        index: g.index,
        bindings: Seq::new(g.bindings.len(), |i: int| spec_promote_binding(g.bindings[i], m)),
    }
}

pub open spec fn spec_promote_groups(
    gs: Seq<SpecBindGroup>,
    m: Map<Seq<char>, RenderResourceAssignment>,
) -> Seq<SpecBindGroup> {
    Seq::new(gs.len(), |i: int| spec_promote_group(gs[i], m))
}

/// Each reflected vertex buffer after synchronisation: the override of the
/// same name when one exists, the reflected layout otherwise.
pub open spec fn spec_sync_vertex_buffers(
    vs: Seq<SpecVertexBuffer>,
    m: Map<Seq<char>, SpecVertexBuffer>,
) -> Seq<SpecVertexBuffer> {
    Seq::new(
        vs.len(),
        |i: int| if m.contains_key(vs[i].name) {
            m[vs[i].name]
        } else {
            vs[i]
        },
    )
}

/// Dynamic promotion, stated binding by binding: a uniform binding whose name
/// is assigned a dynamic buffer reports `dynamic = true` after the pass, and
/// a binding with no such assignment is left exactly as reflected.
pub proof fn lemma_dynamic_promotion(
    g: SpecBindGroup,
    m: Map<Seq<char>, RenderResourceAssignment>,
    i: int,
)
    requires
        0 <= i < g.bindings.len(),
    ensures
        (m.contains_key(g.bindings[i].name) && spec_is_dynamic_buffer(m[g.bindings[i].name]) && (
        g.bindings[i].bind_type matches BindType::Uniform { .. })) ==> spec_promote_group(
            g,
            m,
        ).bindings[i].bind_type == (BindType::Uniform { dynamic: true }),
        (!m.contains_key(g.bindings[i].name) || !spec_is_dynamic_buffer(m[g.bindings[i].name]))
            ==> spec_promote_group(g, m).bindings[i] == g.bindings[i],
        !(g.bindings[i].bind_type matches BindType::Uniform { .. }) ==> spec_promote_group(
            g,
            m,
        ).bindings[i] == g.bindings[i],
{
}

} // verus!
