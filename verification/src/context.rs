//! The render-resource context: the registry of live resource handles and
//! their metadata, the recorded copy commands, the swap-chain bookkeeping,
//! and the content-keyed caches that realize shader modules, bind-group
//! layouts, bind groups and render pipelines exactly once. Native object
//! creation is the backend's; this layer decides what exists, under which
//! identity, and whether a request is a cache hit or a miss.

use vstd::prelude::*;
use crate::assignments::{
    spec_bound_of, spec_resource_set_id, BoundResource, RenderResourceAssignment,
    RenderResourceAssignments, RenderResourceSetId, set_id_eq,
};
use crate::binding::{bind_group_eq, clone_bind_group, BindGroupDescriptor, SpecBindGroup};
use crate::pipeline::{spec_current_layout, PipelineDescriptor};
use crate::resource::{
    BufferInfo, Extent3d, Origin3d, RenderResource, ResourceInfo, SamplerDescriptor,
    TextureDescriptor, BUFFER_USAGE_COPY_SRC,
};
use crate::shader::{Shader, ShaderHandle, ShaderStore};

verus! {

broadcast use vstd::set::group_set_axioms;

/// A handle naming one registered draw pipeline.
#[derive(Clone, Copy, Debug, PartialEq, Eq, Structural, Hash, PartialOrd, Ord)]
pub struct PipelineHandle(pub u64);

/// A window's identity at this layer's boundary.
#[derive(Clone, Copy, Debug, PartialEq, Eq, Structural, Hash, PartialOrd, Ord)]
pub struct WindowId(pub u64);

/// What this layer needs to know of a window to manage its swap chain.
#[derive(Clone, Copy, Debug, PartialEq, Eq, Structural)]
pub struct Window {
    pub id: WindowId,
    pub width: u32,
    pub height: u32,
    pub vsync: bool,
}

/// One GPU command recorded for the backend to execute on submission.
#[derive(Clone, Copy, Debug, PartialEq, Eq, Structural)]
pub enum Command {
    CopyBufferToBuffer {
        source_buffer: RenderResource,
        source_offset: u64,
        destination_buffer: RenderResource,
        destination_offset: u64,
        size: u64,
    },
    CopyBufferToTexture {
        source_buffer: RenderResource,
        source_offset: u64,
        source_bytes_per_row: u32,
        destination_texture: RenderResource,
        destination_origin: Origin3d,
        destination_mip_level: u32,
        destination_array_layer: u32,
        size: Extent3d,
    },
}

/// An ordered recording of GPU commands, not submitted by this layer.
pub struct CommandEncoder {
    pub commands: Vec<Command>,
}

impl View for CommandEncoder {
    type V = Seq<Command>;

    open spec fn view(&self) -> Seq<Command> {
        self.commands@
    }
}

impl CommandEncoder {
    pub fn new() -> (r: Self)
        ensures
            r@ == Seq::<Command>::empty(),
    {
        CommandEncoder { commands: Vec::new() }
    }
}

/// Everything a context operation can report instead of doing work: an
/// unknown handle, an unresolvable stage, a missing surface or swap chain, a
/// pipeline whose layout was never reflected, or a bind-group descriptor with
/// an unassigned binding.
#[derive(Clone, Copy, Debug, PartialEq, Eq, Structural)]
pub enum RenderResourceError {
    BufferNotFound(RenderResource),
    TextureNotFound(RenderResource),
    SamplerNotFound(RenderResource),
    ShaderNotFound(ShaderHandle),
    SurfaceNotFound(WindowId),
    SwapChainNotFound(WindowId),
    PipelineLayoutMissing,
    MissingBinding { binding_index: u32 },
}

/// A set of resource or window identifiers, with fast membership and the
/// guarantee that it holds no duplicates.
pub struct IdSet {
    pub items: Vec<u64>,
}

impl View for IdSet {
    type V = Set<u64>;

    open spec fn view(&self) -> Set<u64> {
        self.items@.to_set()
    }
}

/// Pushing an element extends the induced set by it.
proof fn lemma_push_to_set(s: Seq<u64>, x: u64)
    ensures
        s.push(x).to_set() == s.to_set().insert(x),
        s.no_duplicates() && !s.contains(x) ==> s.push(x).no_duplicates(),
{
    assert forall|y: u64| s.push(x).to_set().contains(y) implies s.to_set().insert(x).contains(
        y,
    ) by {
        let j = choose|j: int| 0 <= j < s.push(x).len() && s.push(x)[j] == y;
        if j < s.len() {
            assert(s[j] == y);
        }
    }
    assert forall|y: u64| s.to_set().insert(x).contains(y) implies s.push(x).to_set().contains(
        y,
    ) by {
        if y == x {
            assert(s.push(x)[s.len() as int] == y);
        } else {
            let j = choose|j: int| 0 <= j < s.len() && s[j] == y;
            assert(s.push(x)[j] == y);
        }
    }
    assert(s.push(x).to_set() =~= s.to_set().insert(x));
    if s.no_duplicates() && !s.contains(x) {
        assert forall|i: int, j: int|
            0 <= i < s.push(x).len() && 0 <= j < s.push(x).len() && i != j implies s.push(x)[i]
            != s.push(x)[j] by {
            if i < s.len() && j < s.len() {
            } else if j == s.len() {
                assert(s.push(x)[i] == s[i]);
                assert(s.contains(s[i]));
            } else {
                assert(s.push(x)[j] == s[j]);
                assert(s.contains(s[j]));
            }
        }
    }
}

/// Removing the unique occurrence of an element removes it from the induced
/// set and keeps the sequence duplicate-free.
proof fn lemma_remove_to_set(s: Seq<u64>, i: int)
    requires
        s.no_duplicates(),
        0 <= i < s.len(),
    ensures
        s.remove(i).to_set() == s.to_set().remove(s[i]),
        s.remove(i).no_duplicates(),
{
    let t = s.remove(i);
    assert forall|y: u64| t.to_set().contains(y) implies s.to_set().remove(s[i]).contains(y) by {
        let j = choose|j: int| 0 <= j < t.len() && t[j] == y;
        if j < i {
            assert(s[j] == y);
            assert(s[j] != s[i]);
        } else {
            assert(t[j] == s[j + 1]);
            assert(s[j + 1] != s[i]);
        }
    }
    assert forall|y: u64| s.to_set().remove(s[i]).contains(y) implies t.to_set().contains(y) by {
        let j = choose|j: int| 0 <= j < s.len() && s[j] == y;
        assert(j != i);
        if j < i {
            assert(t[j] == y);
        } else {
            assert(t[j - 1] == s[j]);
        }
    }
    assert(t.to_set() =~= s.to_set().remove(s[i]));
    assert forall|m: int, n: int| 0 <= m < t.len() && 0 <= n < t.len() && m != n implies t[m]
        != t[n] by {
        let mm: int = if m < i { m } else { m + 1 };
        let nn: int = if n < i { n } else { n + 1 };
        assert(t[m] == s[mm]);
        assert(t[n] == s[nn]);
    }
}

impl IdSet {
    pub open spec fn wf(&self) -> bool {
        self.items@.no_duplicates()
    }

    pub fn new() -> (r: Self)
        ensures
            r@ == Set::<u64>::empty(),
            r.wf(),
    {
        let r = IdSet { items: Vec::new() };
        proof {
            assert(r@ =~= Set::<u64>::empty());
        }
        r
    }

    pub fn contains(&self, id: u64) -> (r: bool)
        ensures
            r == self@.contains(id),
    {
        let mut i: usize = 0;
        while i < self.items.len()
            invariant
                0 <= i <= self.items@.len(),
                forall|j: int| 0 <= j < i ==> self.items@[j] != id,
            decreases self.items@.len() - i,
        {
            if self.items[i] == id {
                return true;
            }
            i += 1;
        }
        proof {
            assert(!self.items@.contains(id));
        }
        false
    }

    pub fn insert(&mut self, id: u64)
        requires
            old(self).wf(),
        ensures
            final(self).wf(),
            final(self)@ == old(self)@.insert(id),
    {
        if !self.contains(id) {
            let ghost before = self.items@;
            self.items.push(id);
            proof {
                lemma_push_to_set(before, id);
            }
        } else {
            proof {
                assert(final(self)@ =~= old(self)@.insert(id));
            }
        }
    }

    pub fn remove(&mut self, id: u64)
        requires
            old(self).wf(),
        ensures
            final(self).wf(),
            final(self)@ == old(self)@.remove(id),
    {
        let ghost before = self.items@;
        let mut i: usize = 0;
        while i < self.items.len()
            invariant
                0 <= i <= self.items@.len(),
                self.items@ == before,
                before == old(self).items@,
                before.no_duplicates(),
                forall|j: int| 0 <= j < i ==> self.items@[j] != id,
            decreases self.items@.len() - i,
        {
            if self.items[i] == id {
                proof {
                    lemma_remove_to_set(before, i as int);
                }
                self.items.remove(i);
                return ;
            }
            i += 1;
        }
        proof {
            assert(!before.contains(id));
            assert(final(self)@ =~= old(self)@.remove(id));
        }
    }

    pub fn clear(&mut self)
        ensures
            final(self).wf(),
            final(self)@ == Set::<u64>::empty(),
    {
        self.items.clear();
        proof {
            assert(final(self)@ =~= Set::<u64>::empty());
        }
    }

    pub fn len(&self) -> (r: usize)
        requires
            self.wf(),
        ensures
            r == self@.len(),
    {
        proof {
            self.items@.unique_seq_to_set();
        }
        self.items.len()
    }

    /// The set an `IdSet` denotes is always finite.
    pub proof fn lemma_view_finite(&self)
        ensures
            self@.finite(),
    {
        vstd::seq_lib::seq_to_set_is_finite(self.items@);
    }
}

/// The per-handle metadata map. Handles are allocated monotonically, so a key
/// is inserted at most once and the entry list stays duplicate-free.
pub struct InfoMap {
    pub entries: Vec<(u64, ResourceInfo)>,
}

impl View for InfoMap {
    type V = Map<u64, ResourceInfo>;

    open spec fn view(&self) -> Map<u64, ResourceInfo> {
        InfoMap::spec_map_of(self.entries@)
    }
}

impl InfoMap {
    pub open spec fn spec_map_of(es: Seq<(u64, ResourceInfo)>) -> Map<u64, ResourceInfo>
        decreases es.len(),
    {
        if es.len() == 0 {
            Map::empty()
        } else {
            Self::spec_map_of(es.drop_last()).insert(es.last().0, es.last().1)
        }
    }

    pub open spec fn wf(&self) -> bool {
        forall|i: int, j: int|
            0 <= i < j < self.entries@.len() ==> #[trigger] self.entries@[i].0 != #[trigger] self
                .entries@[j].0
    }

    pub fn new() -> (r: Self)
        ensures
            r@ == Map::<u64, ResourceInfo>::empty(),
            r.wf(),
    {
        InfoMap { entries: Vec::new() }
    }

    pub fn get(&self, key: u64) -> (r: Option<ResourceInfo>)
        ensures
            match r {
                Some(info) => self@.contains_key(key) && info == self@[key],
                None => !self@.contains_key(key),
            },
    {
        let mut i: usize = self.entries.len();
        while i > 0
            invariant
                0 <= i <= self.entries@.len(),
                forall|j: int| i <= j < self.entries@.len() ==> #[trigger] self.entries@[j].0
                    != key,
            decreases i,
        {
            i -= 1;
            if self.entries[i].0 == key {
                proof {
                    Self::lemma_map_of_found(self.entries@, key, i as int);
                }
                return Some(self.entries[i].1);
            }
        }
        proof {
            Self::lemma_map_of_absent(self.entries@, key);
        }
        None
    }

    /// Inserts a key no entry holds yet.
    pub fn insert_fresh(&mut self, key: u64, value: ResourceInfo)
        requires
            old(self).wf(),
            !old(self)@.contains_key(key),
        ensures
            final(self).wf(),
            final(self)@ == old(self)@.insert(key, value),
    {
        proof {
            Self::lemma_absent_no_entry(self.entries@, key);
        }
        self.entries.push((key, value));
        proof {
            assert(self.entries@.drop_last() =~= old(self).entries@);
        }
    }

    pub fn remove(&mut self, key: u64)
        requires
            old(self).wf(),
        ensures
            final(self).wf(),
            final(self)@ == old(self)@.remove(key),
    {
        let ghost before = self.entries@;
        let mut i: usize = 0;
        while i < self.entries.len()
            invariant
                0 <= i <= self.entries@.len(),
                self.entries@ == before,
                before == old(self).entries@,
                forall|m: int, n: int|
                    0 <= m < n < before.len() ==> #[trigger] before[m].0 != #[trigger] before[n].0,
                forall|j: int| 0 <= j < i ==> #[trigger] self.entries@[j].0 != key,
            decreases self.entries@.len() - i,
        {
            if self.entries[i].0 == key {
                proof {
                    Self::lemma_map_of_remove(before, key, i as int);
                }
                self.entries.remove(i);
                return ;
            }
            i += 1;
        }
        proof {
            Self::lemma_map_of_absent(before, key);
            assert(old(self)@ =~= old(self)@.remove(key));
        }
    }

    proof fn lemma_map_of_found(es: Seq<(u64, ResourceInfo)>, key: u64, i: int)
        requires
            0 <= i < es.len(),
            es[i].0 == key,
            forall|j: int| i < j < es.len() ==> #[trigger] es[j].0 != key,
        ensures
            Self::spec_map_of(es).contains_key(key),
            Self::spec_map_of(es)[key] == es[i].1,
        decreases es.len(),
    {
        if i < es.len() - 1 {
            Self::lemma_map_of_found(es.drop_last(), key, i);
        }
    }

    proof fn lemma_map_of_absent(es: Seq<(u64, ResourceInfo)>, key: u64)
        requires
            forall|j: int| 0 <= j < es.len() ==> #[trigger] es[j].0 != key,
        ensures
            !Self::spec_map_of(es).contains_key(key),
        decreases es.len(),
    {
        if es.len() > 0 {
            Self::lemma_map_of_absent(es.drop_last(), key);
        }
    }

    /// A key absent from the map is held by no entry.
    proof fn lemma_absent_no_entry(es: Seq<(u64, ResourceInfo)>, key: u64)
        requires
            !Self::spec_map_of(es).contains_key(key),
        ensures
            forall|j: int| 0 <= j < es.len() ==> #[trigger] es[j].0 != key,
        decreases es.len(),
    {
        if es.len() > 0 {
            assert(Self::spec_map_of(es).contains_key(es.last().0));
            assert(!Self::spec_map_of(es.drop_last()).contains_key(key));
            Self::lemma_absent_no_entry(es.drop_last(), key);
            assert forall|j: int| 0 <= j < es.len() implies #[trigger] es[j].0 != key by {
                if j < es.len() - 1 {
                    assert(es.drop_last()[j] == es[j]);
                }
            }
        }
    }

    /// Removing the unique entry that holds a key removes the key from the
    /// map.
    proof fn lemma_map_of_remove(es: Seq<(u64, ResourceInfo)>, key: u64, i: int)
        requires
            forall|m: int, n: int|
                0 <= m < n < es.len() ==> #[trigger] es[m].0 != #[trigger] es[n].0,
            0 <= i < es.len(),
            es[i].0 == key,
        ensures
            Self::spec_map_of(es.remove(i)) == Self::spec_map_of(es).remove(key),
        decreases es.len(),
    {
        assert forall|m: int, n: int|
            0 <= m < n < es.drop_last().len() implies #[trigger] es.drop_last()[m].0
            != #[trigger] es.drop_last()[n].0 by {
            assert(es[m].0 != es[n].0);
        }
        if i == es.len() - 1 {
            assert(es.remove(i) =~= es.drop_last());
            assert forall|j: int| 0 <= j < es.drop_last().len() implies #[trigger] es.drop_last()[
                j].0 != key by {
                assert(es[j].0 != es[i].0);
            }
            Self::lemma_map_of_absent(es.drop_last(), key);
            assert(Self::spec_map_of(es.drop_last()) =~= Self::spec_map_of(es.drop_last()).insert(
                key,
                es[i].1,
            ).remove(key));
        } else {
            Self::lemma_map_of_remove(es.drop_last(), key, i);
            assert(es.remove(i).drop_last() =~= es.drop_last().remove(i));
            assert(es.remove(i).last() == es.last());
            assert(Self::spec_map_of(es.remove(i)) == Self::spec_map_of(
                es.drop_last().remove(i),
            ).insert(es.last().0, es.last().1));
            assert(es.last().0 != key);
            assert(Self::spec_map_of(es).remove(key) =~= Self::spec_map_of(
                es.drop_last(),
            ).remove(key).insert(es.last().0, es.last().1));
        }
    }
}


/// The name-to-resource map recorded for external assets: entries are
/// appended, later entries win.
pub open spec fn spec_asset_map_of(es: Seq<(u64, usize, u64)>) -> Map<(u64, usize), u64>
    decreases es.len(),
{
    if es.len() == 0 {
        Map::empty()
    } else {
        spec_asset_map_of(es.drop_last()).insert((es.last().0, es.last().1), es.last().2)
    }
}

proof fn lemma_asset_map_found(es: Seq<(u64, usize, u64)>, key: (u64, usize), i: int)
    requires
        0 <= i < es.len(),
        (es[i].0, es[i].1) == key,
        forall|j: int| i < j < es.len() ==> (#[trigger] es[j].0, es[j].1) != key,
    ensures
        spec_asset_map_of(es).contains_key(key),
        spec_asset_map_of(es)[key] == es[i].2,
    decreases es.len(),
{
    if i < es.len() - 1 {
        lemma_asset_map_found(es.drop_last(), key, i);
    }
}

proof fn lemma_asset_map_absent(es: Seq<(u64, usize, u64)>, key: (u64, usize))
    requires
        forall|j: int| 0 <= j < es.len() ==> (#[trigger] es[j].0, es[j].1) != key,
    ensures
        !spec_asset_map_of(es).contains_key(key),
    decreases es.len(),
{
    if es.len() > 0 {
        lemma_asset_map_absent(es.drop_last(), key);
    }
}

/// The views of the bind-group-layout cache entries.
pub open spec fn spec_layout_cache_of(es: Seq<BindGroupDescriptor>) -> Seq<SpecBindGroup> {
    Seq::new(es.len(), |i: int| es[i]@)
}

/// The views of the bind-group cache entries.
pub open spec fn spec_bind_group_cache_of(
    es: Seq<(BindGroupDescriptor, RenderResourceSetId)>,
) -> Seq<(SpecBindGroup, Seq<BoundResource>)> {
    Seq::new(es.len(), |i: int| (es[i].0@, es[i].1@))
}

/// The whole context, mathematically: the allocator bound, the registry maps
/// and sets, the compile history of shader modules, and the realized caches
/// in realization order. A cache sequence's length is the number of native
/// creations performed, since nothing is ever evicted.
pub ghost struct SpecContext {
    pub next_resource: u64,
    pub resource_info: Map<u64, ResourceInfo>,
    pub buffers: Set<u64>,
    pub textures: Set<u64>,
    pub samplers: Set<u64>,
    pub shader_modules: Seq<u64>,
    pub window_surfaces: Set<u64>,
    pub window_swap_chains: Set<u64>,
    pub swap_chain_outputs: Set<u64>,
    pub asset_resources: Map<(u64, usize), u64>,
    pub bind_group_layouts: Seq<SpecBindGroup>,
    pub bind_groups: Seq<(SpecBindGroup, Seq<BoundResource>)>,
    pub render_pipelines: Seq<u64>,
}

/// A bind-group-layout cache after a get-or-create for one shape: unchanged
/// on a hit, extended by the shape on a miss.
pub open spec fn spec_register_layout(ls: Seq<SpecBindGroup>, g: SpecBindGroup) -> Seq<
    SpecBindGroup,
> {
    if ls.contains(g) {
        ls
    } else {
        ls.push(g)
    }
}

/// A layout cache after get-or-create of every group of a pipeline layout,
/// from group `i` on.
pub open spec fn spec_register_layouts_from(
    ls: Seq<SpecBindGroup>,
    gs: Seq<SpecBindGroup>,
    i: int,
) -> Seq<SpecBindGroup>
    decreases gs.len() - i
        when 0 <= i <= gs.len()
{
    if i == gs.len() {
        ls
    } else {
        spec_register_layouts_from(spec_register_layout(ls, gs[i]), gs, i + 1)
    }
}

/// The compile history after a memoized shader-module creation: unchanged
/// when the handle was compiled before, extended by one compilation else.
pub open spec fn spec_compile_module(ms: Seq<u64>, h: u64) -> Seq<u64> {
    if ms.to_set().contains(h) {
        ms
    } else {
        ms.push(h)
    }
}

pub open spec fn spec_compile_fragment(ms: Seq<u64>, f: Option<ShaderHandle>) -> Seq<u64> {
    match f {
        Option::Some(h) => spec_compile_module(ms, h.0),
        Option::None => ms,
    }
}

/// The context after a bind-group get-or-create under one (descriptor,
/// resolved-set) identity: unchanged on a hit; on a miss the descriptor's
/// layout is registered and exactly one bind group is created.
pub open spec fn spec_cache_bind_group(
    m: SpecContext,
    g: SpecBindGroup,
    sid: Seq<BoundResource>,
) -> SpecContext {
    if m.bind_groups.contains((g, sid)) {
        m
    } else {
        SpecContext {
            bind_group_layouts: spec_register_layout(m.bind_group_layouts, g),
            bind_groups: m.bind_groups.push((g, sid)),
            ..m
        }
    }
}

/// The context after a pipeline get-or-create: unchanged when the handle is
/// realized; else its layout's groups are registered, its stages compiled
/// (each at most once), and exactly one pipeline is created.
pub open spec fn spec_create_pipeline(
    m: SpecContext,
    h: u64,
    groups: Seq<SpecBindGroup>,
    vertex: u64,
    fragment: Option<ShaderHandle>,
) -> SpecContext {
    if m.render_pipelines.contains(h) {
        m
    } else {
        SpecContext {
            bind_group_layouts: spec_register_layouts_from(m.bind_group_layouts, groups, 0),
            shader_modules: spec_compile_fragment(spec_compile_module(m.shader_modules, vertex), fragment),
            render_pipelines: m.render_pipelines.push(h),
            ..m
        }
    }
}

/// Whether one assignment's resource is registered in the kind of collection
/// its binding expects.
pub open spec fn spec_assignment_resolvable(m: SpecContext, a: RenderResourceAssignment) -> bool {
    match a {
        RenderResourceAssignment::Texture(t) => m.textures.contains(t.0),
        RenderResourceAssignment::Sampler(s) => m.samplers.contains(s.0),
        RenderResourceAssignment::Buffer { resource, .. } => m.buffers.contains(resource.0),
    }
}

/// Whether every binding of a descriptor resolves to a registered resource.
pub open spec fn spec_all_resolvable(
    m: SpecContext,
    d: SpecBindGroup,
    asg: Map<Seq<char>, RenderResourceAssignment>,
) -> bool {
    forall|i: int| 0 <= i < d.bindings.len() ==> spec_assignment_resolvable(
        m,
        asg[#[trigger] d.bindings[i].name],
    )
}

/// Every handle a registry collection holds was allocated below the
/// allocator's next identifier.
pub open spec fn spec_bounds_ok(m: SpecContext) -> bool {
    &&& (forall|k: u64| m.resource_info.contains_key(k) ==> k < m.next_resource)
    &&& (forall|k: u64| m.buffers.contains(k) ==> k < m.next_resource)
    &&& (forall|k: u64| m.textures.contains(k) ==> k < m.next_resource)
    &&& (forall|k: u64| m.samplers.contains(k) ==> k < m.next_resource)
    &&& (forall|k: u64| m.swap_chain_outputs.contains(k) ==> k < m.next_resource)
}

/// An operation that adds no handle to the bounded collections and does not
/// lower the allocator keeps every bound intact.
proof fn lemma_bounds_preserved(pre: SpecContext, post: SpecContext)
    requires
        spec_bounds_ok(pre),
        post.next_resource == pre.next_resource,
        forall|k: u64| post.resource_info.contains_key(k) ==> pre.resource_info.contains_key(k),
        forall|k: u64| post.buffers.contains(k) ==> pre.buffers.contains(k),
        forall|k: u64| post.textures.contains(k) ==> pre.textures.contains(k),
        forall|k: u64| post.samplers.contains(k) ==> pre.samplers.contains(k),
        forall|k: u64| post.swap_chain_outputs.contains(k) ==> pre.swap_chain_outputs.contains(k),
    ensures
        spec_bounds_ok(post),
{
}

/// The registry of live GPU resources and the caches over them. Operations
/// that realize native objects are get-or-create: a hit changes nothing, a
/// miss records exactly one creation. The whole context is one value mutated
/// through exclusive borrows, and each realization is a single atomic
/// get-or-create entry point, so a check-then-insert race between two writers
/// is structurally impossible; a shared deployment wraps the context in one
/// lock rather than one lock per collection.
pub struct RenderResourceContext {
    pub next_resource: u64,
    pub resource_info: InfoMap,
    pub buffers: IdSet,
    pub textures: IdSet,
    pub samplers: IdSet,
    pub shader_modules: Vec<u64>,
    pub window_surfaces: IdSet,
    pub window_swap_chains: IdSet,
    pub swap_chain_outputs: IdSet,
    pub asset_resources: Vec<(u64, usize, u64)>,
    pub bind_group_layouts: Vec<BindGroupDescriptor>,
    pub bind_groups: Vec<(BindGroupDescriptor, RenderResourceSetId)>,
    pub render_pipelines: Vec<u64>,
}

impl View for RenderResourceContext {
    type V = SpecContext;

    open spec fn view(&self) -> SpecContext {
        SpecContext {
            next_resource: self.next_resource,
            resource_info: self.resource_info@,
            buffers: self.buffers@,
            textures: self.textures@,
            samplers: self.samplers@,
            shader_modules: self.shader_modules@,
            window_surfaces: self.window_surfaces@,
            window_swap_chains: self.window_swap_chains@,
            swap_chain_outputs: self.swap_chain_outputs@,
            asset_resources: spec_asset_map_of(self.asset_resources@),
            bind_group_layouts: spec_layout_cache_of(self.bind_group_layouts@),
            bind_groups: spec_bind_group_cache_of(self.bind_groups@),
            render_pipelines: self.render_pipelines@,
        }
    }
}

impl RenderResourceContext {
    /// Internal consistency: registries hold no duplicates, every handle they
    /// hold was allocated, and each cache holds at most one entry per
    /// identity.
    pub open spec fn wf(&self) -> bool {
        &&& self.resource_info.wf()
        &&& self.buffers.wf()
        &&& self.textures.wf()
        &&& self.samplers.wf()
        &&& self.window_surfaces.wf()
        &&& self.window_swap_chains.wf()
        &&& self.swap_chain_outputs.wf()
        &&& spec_bounds_ok(self@)
        &&& self.render_pipelines@.no_duplicates()
        &&& (forall|i: int, j: int|
            0 <= i < j < self@.bind_group_layouts.len() ==> self@.bind_group_layouts[i]
                != self@.bind_group_layouts[j])
        &&& (forall|i: int, j: int|
            0 <= i < j < self@.bind_groups.len() ==> self@.bind_groups[i] != self@.bind_groups[j])
    }

    pub fn new() -> (r: Self)
        ensures
            r.wf(),
            r@.next_resource == 0u64,
            r@.resource_info == Map::<u64, ResourceInfo>::empty(),
            r@.buffers == Set::<u64>::empty(),
            r@.textures == Set::<u64>::empty(),
            r@.samplers == Set::<u64>::empty(),
            r@.shader_modules == Seq::<u64>::empty(),
            r@.window_surfaces == Set::<u64>::empty(),
            r@.window_swap_chains == Set::<u64>::empty(),
            r@.swap_chain_outputs == Set::<u64>::empty(),
            r@.asset_resources == Map::<(u64, usize), u64>::empty(),
            r@.bind_group_layouts == Seq::<SpecBindGroup>::empty(),
            r@.bind_groups == Seq::<(SpecBindGroup, Seq<BoundResource>)>::empty(),
            r@.render_pipelines == Seq::<u64>::empty(),
    {
        let r = RenderResourceContext {
            next_resource: 0,
            resource_info: InfoMap::new(),
            buffers: IdSet::new(),
            textures: IdSet::new(),
            samplers: IdSet::new(),
            shader_modules: Vec::new(),
            window_surfaces: IdSet::new(),
            window_swap_chains: IdSet::new(),
            swap_chain_outputs: IdSet::new(),
            asset_resources: Vec::new(),
            bind_group_layouts: Vec::new(),
            bind_groups: Vec::new(),
            render_pipelines: Vec::new(),
        };
        proof {
            assert(r@.bind_group_layouts =~= Seq::<SpecBindGroup>::empty());
            assert(r@.bind_groups =~= Seq::<(SpecBindGroup, Seq<BoundResource>)>::empty());
        }
        r
    }

    /// Allocates a fresh buffer handle and records the buffer's metadata; the
    /// backend creates the native buffer under the returned handle.
    pub fn create_buffer(&mut self, buffer_info: BufferInfo) -> (r: RenderResource)
        requires
            old(self).wf(),
            old(self)@.next_resource < u64::MAX,
        ensures
            final(self).wf(),
            r.0 == old(self)@.next_resource,
            !old(self)@.buffers.contains(r.0),
            final(self)@ == (SpecContext {
                next_resource: (old(self)@.next_resource + 1) as u64,
                resource_info: old(self)@.resource_info.insert(
                    r.0,
                    ResourceInfo::Buffer(buffer_info),
                ),
                buffers: old(self)@.buffers.insert(r.0),
                ..old(self)@
            }),
    {
        let id = self.next_resource;
        self.next_resource = id + 1;
        proof {
            assert(!old(self)@.resource_info.contains_key(id));
        }
        self.resource_info.insert_fresh(id, ResourceInfo::Buffer(buffer_info));
        self.buffers.insert(id);
        RenderResource(id)
    }

    /// As `create_buffer`, except that the buffer's size is the byte length
    /// of the initial data the backend uploads into it.
    pub fn create_buffer_with_data(&mut self, buffer_info: BufferInfo, data: &[u8]) -> (r:
        RenderResource)
        requires
            old(self).wf(),
            old(self)@.next_resource < u64::MAX,
        ensures
            final(self).wf(),
            r.0 == old(self)@.next_resource,
            final(self)@ == (SpecContext {
                next_resource: (old(self)@.next_resource + 1) as u64,
                resource_info: old(self)@.resource_info.insert(
                    r.0,
                    ResourceInfo::Buffer(
                        BufferInfo { size: data@.len() as usize, ..buffer_info },
                    ),
                ),
                buffers: old(self)@.buffers.insert(r.0),
                ..old(self)@
            }),
    {
        let info = BufferInfo { size: data.len(), buffer_usage: buffer_info.buffer_usage };
        self.create_buffer(info)
    }

    /// As `create_buffer`; the backend additionally exposes the buffer's
    /// staging memory to the caller for filling before it becomes resident.
    pub fn create_buffer_mapped(&mut self, buffer_info: BufferInfo) -> (r: RenderResource)
        requires
            old(self).wf(),
            old(self)@.next_resource < u64::MAX,
        ensures
            final(self).wf(),
            r.0 == old(self)@.next_resource,
            final(self)@ == (SpecContext {
                next_resource: (old(self)@.next_resource + 1) as u64,
                resource_info: old(self)@.resource_info.insert(
                    r.0,
                    ResourceInfo::Buffer(buffer_info),
                ),
                buffers: old(self)@.buffers.insert(r.0),
                ..old(self)@
            }),
    {
        self.create_buffer(buffer_info)
    }

    /// Allocates a fresh texture handle and records the texture's metadata.
    pub fn create_texture(&mut self, texture_descriptor: TextureDescriptor) -> (r: RenderResource)
        requires
            old(self).wf(),
            old(self)@.next_resource < u64::MAX,
        ensures
            final(self).wf(),
            r.0 == old(self)@.next_resource,
            !old(self)@.textures.contains(r.0),
            final(self)@ == (SpecContext {
                next_resource: (old(self)@.next_resource + 1) as u64,
                resource_info: old(self)@.resource_info.insert(
                    r.0,
                    ResourceInfo::Texture(texture_descriptor),
                ),
                textures: old(self)@.textures.insert(r.0),
                ..old(self)@
            }),
    {
        let id = self.next_resource;
        self.next_resource = id + 1;
        proof {
            assert(!old(self)@.resource_info.contains_key(id));
        }
        self.resource_info.insert_fresh(id, ResourceInfo::Texture(texture_descriptor));
        self.textures.insert(id);
        RenderResource(id)
    }

    /// Creates a texture, stages the caller's bytes through a temporary
    /// buffer registered like any other buffer, and records the copy from
    /// that buffer into mip 0, array layer 0, origin zero of the texture on
    /// the given encoder; submission stays the caller's responsibility, and
    /// the staging buffer may be removed once the copy has been submitted.
    pub fn create_texture_with_data(
        &mut self,
        command_encoder: &mut CommandEncoder,
        texture_descriptor: TextureDescriptor,
        bytes: &[u8],
    ) -> (r: RenderResource)
        requires
            old(self).wf(),
            old(self)@.next_resource < u64::MAX - 1,
            texture_descriptor.size.width <= u32::MAX / 4,
        ensures
            final(self).wf(),
            r.0 == old(self)@.next_resource,
            final(self)@ == (SpecContext {
                next_resource: (old(self)@.next_resource + 2) as u64,
                resource_info: old(self)@.resource_info.insert(
                    r.0,
                    ResourceInfo::Texture(texture_descriptor),
                ).insert(
                    (old(self)@.next_resource + 1) as u64,
                    ResourceInfo::Buffer(
                        BufferInfo {
                            size: bytes@.len() as usize,
                            buffer_usage: BUFFER_USAGE_COPY_SRC,
                        },
                    ),
                ),
                textures: old(self)@.textures.insert(r.0),
                buffers: old(self)@.buffers.insert((old(self)@.next_resource + 1) as u64),
                ..old(self)@
            }),
            final(command_encoder)@ == old(command_encoder)@.push(
                Command::CopyBufferToTexture {
                    source_buffer: RenderResource((old(self)@.next_resource + 1) as u64),
                    source_offset: 0u64,
                    source_bytes_per_row: (4 * texture_descriptor.size.width) as u32,
                    destination_texture: r,
                    destination_origin: Origin3d { x: 0u32, y: 0u32, z: 0u32 },
                    destination_mip_level: 0u32,
                    destination_array_layer: 0u32,
                    size: texture_descriptor.size,
                },
            ),
    {
        let bytes_per_row: u32 = 4 * texture_descriptor.size.width;
        let texture = self.create_texture(texture_descriptor);
        let staging = self.create_buffer_with_data(
            BufferInfo { size: 0, buffer_usage: BUFFER_USAGE_COPY_SRC },
            bytes,
        );
        command_encoder.commands.push(
            Command::CopyBufferToTexture {
                source_buffer: staging,
                source_offset: 0,
                source_bytes_per_row: bytes_per_row,
                destination_texture: texture,
                destination_origin: Origin3d { x: 0, y: 0, z: 0 },
                destination_mip_level: 0,
                destination_array_layer: 0,
                size: texture_descriptor.size,
            },
        );
        texture
    }

    /// Allocates a fresh sampler handle and records it.
    pub fn create_sampler(&mut self, sampler_descriptor: &SamplerDescriptor) -> (r: RenderResource)
        requires
            old(self).wf(),
            old(self)@.next_resource < u64::MAX,
        ensures
            final(self).wf(),
            r.0 == old(self)@.next_resource,
            final(self)@ == (SpecContext {
                next_resource: (old(self)@.next_resource + 1) as u64,
                resource_info: old(self)@.resource_info.insert(r.0, ResourceInfo::Sampler),
                samplers: old(self)@.samplers.insert(r.0),
                ..old(self)@
            }),
    {
        let id = self.next_resource;
        self.next_resource = id + 1;
        proof {
            assert(!old(self)@.resource_info.contains_key(id));
        }
        self.resource_info.insert_fresh(id, ResourceInfo::Sampler);
        self.samplers.insert(id);
        let _ = sampler_descriptor;
        RenderResource(id)
    }

    /// Forgets a buffer and its metadata; removing an unknown handle is a
    /// recorded no-op, never corruption.
    pub fn remove_buffer(&mut self, resource: RenderResource)
        requires
            old(self).wf(),
        ensures
            final(self).wf(),
            final(self)@ == (SpecContext {
                resource_info: old(self)@.resource_info.remove(resource.0),
                buffers: old(self)@.buffers.remove(resource.0),
                ..old(self)@
            }),
    {
        self.buffers.remove(resource.0);
        self.resource_info.remove(resource.0);
        proof {
            lemma_bounds_preserved(old(self)@, self@);
        }
    }

    /// Forgets a texture and its metadata.
    pub fn remove_texture(&mut self, resource: RenderResource)
        requires
            old(self).wf(),
        ensures
            final(self).wf(),
            final(self)@ == (SpecContext {
                resource_info: old(self)@.resource_info.remove(resource.0),
                textures: old(self)@.textures.remove(resource.0),
                ..old(self)@
            }),
    {
        self.textures.remove(resource.0);
        self.resource_info.remove(resource.0);
        proof {
            lemma_bounds_preserved(old(self)@, self@);
        }
    }

    /// Forgets a sampler and its metadata.
    pub fn remove_sampler(&mut self, resource: RenderResource)
        requires
            old(self).wf(),
        ensures
            final(self).wf(),
            final(self)@ == (SpecContext {
                resource_info: old(self)@.resource_info.remove(resource.0),
                samplers: old(self)@.samplers.remove(resource.0),
                ..old(self)@
            }),
    {
        self.samplers.remove(resource.0);
        self.resource_info.remove(resource.0);
        proof {
            lemma_bounds_preserved(old(self)@, self@);
        }
    }

    /// The metadata of a live resource; absence (an unknown or removed
    /// handle) is an answer, not a fault.
    pub fn get_resource_info(&self, resource: RenderResource) -> (r: Option<ResourceInfo>)
        ensures
            match r {
                Some(info) => self@.resource_info.contains_key(resource.0) && info
                    == self@.resource_info[resource.0],
                None => !self@.resource_info.contains_key(resource.0),
            },
    {
        self.resource_info.get(resource.0)
    }

    /// Records a copy between two live buffers on the encoder; an unknown
    /// handle is a reported error and records nothing.
    pub fn copy_buffer_to_buffer(
        &self,
        command_encoder: &mut CommandEncoder,
        source_buffer: RenderResource,
        source_offset: u64,
        destination_buffer: RenderResource,
        destination_offset: u64,
        size: u64,
    ) -> (r: Result<(), RenderResourceError>)
        ensures
            match r {
                Result::Ok(()) => {
                    &&& self@.buffers.contains(source_buffer.0)
                    &&& self@.buffers.contains(destination_buffer.0)
                    &&& final(command_encoder)@ == old(command_encoder)@.push(
                        Command::CopyBufferToBuffer {
                            source_buffer,
                            source_offset,
                            destination_buffer,
                            destination_offset,
                            size,
                        },
                    )
                },
                Result::Err(e) => {
                    &&& final(command_encoder)@ == old(command_encoder)@
                    &&& (e == RenderResourceError::BufferNotFound(source_buffer)
                        && !self@.buffers.contains(source_buffer.0)) || (e
                        == RenderResourceError::BufferNotFound(destination_buffer)
                        && !self@.buffers.contains(destination_buffer.0))
                },
            },
    {
        if !self.buffers.contains(source_buffer.0) {
            return Err(RenderResourceError::BufferNotFound(source_buffer));
        }
        if !self.buffers.contains(destination_buffer.0) {
            return Err(RenderResourceError::BufferNotFound(destination_buffer));
        }
        command_encoder.commands.push(
            Command::CopyBufferToBuffer {
                source_buffer,
                source_offset,
                destination_buffer,
                destination_offset,
                size,
            },
        );
        Ok(())
    }

    /// Records a copy from a live buffer into a region of a live texture.
    pub fn copy_buffer_to_texture(
        &self,
        command_encoder: &mut CommandEncoder,
        source_buffer: RenderResource,
        source_offset: u64,
        source_bytes_per_row: u32,
        destination_texture: RenderResource,
        destination_origin: Origin3d,
        destination_mip_level: u32,
        destination_array_layer: u32,
        size: Extent3d,
    ) -> (r: Result<(), RenderResourceError>)
        ensures
            match r {
                Result::Ok(()) => {
                    &&& self@.buffers.contains(source_buffer.0)
                    &&& self@.textures.contains(destination_texture.0)
                    &&& final(command_encoder)@ == old(command_encoder)@.push(
                        Command::CopyBufferToTexture {
                            source_buffer,
                            source_offset,
                            source_bytes_per_row,
                            destination_texture,
                            destination_origin,
                            destination_mip_level,
                            destination_array_layer,
                            size,
                        },
                    )
                },
                Result::Err(e) => {
                    &&& final(command_encoder)@ == old(command_encoder)@
                    &&& (e == RenderResourceError::BufferNotFound(source_buffer)
                        && !self@.buffers.contains(source_buffer.0)) || (e
                        == RenderResourceError::TextureNotFound(destination_texture)
                        && !self@.textures.contains(destination_texture.0))
                },
            },
    {
        if !self.buffers.contains(source_buffer.0) {
            return Err(RenderResourceError::BufferNotFound(source_buffer));
        }
        if !self.textures.contains(destination_texture.0) {
            return Err(RenderResourceError::TextureNotFound(destination_texture));
        }
        command_encoder.commands.push(
            Command::CopyBufferToTexture {
                source_buffer,
                source_offset,
                source_bytes_per_row,
                destination_texture,
                destination_origin,
                destination_mip_level,
                destination_array_layer,
                size,
            },
        );
        Ok(())
    }

    /// Whether a shader module has been compiled for the handle.
    pub fn has_shader_module(&self, shader_handle: ShaderHandle) -> (r: bool)
        ensures
            r == self@.shader_modules.to_set().contains(shader_handle.0),
    {
        let mut i: usize = 0;
        while i < self.shader_modules.len()
            invariant
                0 <= i <= self.shader_modules@.len(),
                forall|j: int| 0 <= j < i ==> self.shader_modules@[j] != shader_handle.0,
            decreases self.shader_modules@.len() - i,
        {
            if self.shader_modules[i] == shader_handle.0 {
                return true;
            }
            i += 1;
        }
        proof {
            assert(!self.shader_modules@.contains(shader_handle.0));
        }
        false
    }

    /// Records the unconditional compilation of a shader module for a handle,
    /// replacing any module the handle already had.
    pub fn create_shader_module_from_source(&mut self, shader_handle: ShaderHandle, shader: &Shader)
        requires
            old(self).wf(),
        ensures
            final(self).wf(),
            final(self)@ == (SpecContext {
                shader_modules: old(self)@.shader_modules.push(shader_handle.0),
                ..old(self)@
            }),
    {
        let _ = shader;
        self.shader_modules.push(shader_handle.0);
        proof {
            assert(self@.render_pipelines == old(self)@.render_pipelines);
            assert(self@.bind_group_layouts == old(self)@.bind_group_layouts);
            assert(self@.bind_groups == old(self)@.bind_groups);
            lemma_bounds_preserved(old(self)@, self@);
        }
    }

    /// Compiles a shader module for a handle at most once: a handle that
    /// already has a module is left untouched; otherwise the shader must
    /// resolve in the store.
    pub fn create_shader_module(
        &mut self,
        shader_handle: ShaderHandle,
        shader_storage: &ShaderStore,
    ) -> (r: Result<(), RenderResourceError>)
        requires
            old(self).wf(),
        ensures
            final(self).wf(),
            r is Ok <==> old(self)@.shader_modules.to_set().contains(shader_handle.0)
                || shader_storage@.contains_key(shader_handle.0),
            r is Ok ==> final(self)@ == (SpecContext {
                shader_modules: spec_compile_module(old(self)@.shader_modules, shader_handle.0),
                ..old(self)@
            }),
            r is Err ==> final(self)@ == old(self)@ && r == Err::<(), RenderResourceError>(
                RenderResourceError::ShaderNotFound(shader_handle),
            ),
    {
        if self.has_shader_module(shader_handle) {
            return Ok(());
        }
        match shader_storage.get(shader_handle) {
            Option::Some(shader) => {
                self.create_shader_module_from_source(shader_handle, shader);
                Ok(())
            },
            Option::None => Err(RenderResourceError::ShaderNotFound(shader_handle)),
        }
    }

    /// Records that a window's presentation surface exists; the backend owns
    /// the native surface.
    pub fn set_window_surface(&mut self, window_id: WindowId)
        requires
            old(self).wf(),
        ensures
            final(self).wf(),
            final(self)@ == (SpecContext {
                window_surfaces: old(self)@.window_surfaces.insert(window_id.0),
                ..old(self)@
            }),
    {
        self.window_surfaces.insert(window_id.0);
        proof {
            lemma_bounds_preserved(old(self)@, self@);
        }
    }

    /// Creates (or recreates) the swap chain of a window whose surface is
    /// registered.
    pub fn create_swap_chain(&mut self, window: &Window) -> (r: Result<(), RenderResourceError>)
        requires
            old(self).wf(),
        ensures
            final(self).wf(),
            r is Ok <==> old(self)@.window_surfaces.contains(window.id.0),
            r is Ok ==> final(self)@ == (SpecContext {
                window_swap_chains: old(self)@.window_swap_chains.insert(window.id.0),
                ..old(self)@
            }),
            r is Err ==> final(self)@ == old(self)@ && r == Err::<(), RenderResourceError>(
                RenderResourceError::SurfaceNotFound(window.id),
            ),
    {
        if !self.window_surfaces.contains(window.id.0) {
            return Err(RenderResourceError::SurfaceNotFound(window.id));
        }
        self.window_swap_chains.insert(window.id.0);
        proof {
            lemma_bounds_preserved(old(self)@, self@);
        }
        Ok(())
    }

    /// Acquires the next presentable image of a window's swap chain as a
    /// fresh transient handle; the handle must be dropped, individually or en
    /// masse, before or at frame end.
    pub fn next_swap_chain_texture(&mut self, window_id: WindowId) -> (r: Result<
        RenderResource,
        RenderResourceError,
    >)
        requires
            old(self).wf(),
            old(self)@.next_resource < u64::MAX,
        ensures
            final(self).wf(),
            r is Ok <==> old(self)@.window_swap_chains.contains(window_id.0),
            match r {
                Result::Ok(t) => {
                    &&& t.0 == old(self)@.next_resource
                    &&& !old(self)@.swap_chain_outputs.contains(t.0)
                    &&& final(self)@.swap_chain_outputs.len() == old(
                        self,
                    )@.swap_chain_outputs.len() + 1
                    &&& final(self)@ == (SpecContext {
                        next_resource: (old(self)@.next_resource + 1) as u64,
                        swap_chain_outputs: old(self)@.swap_chain_outputs.insert(t.0),
                        ..old(self)@
                    })
                },
                Result::Err(e) => final(self)@ == old(self)@ && e
                    == RenderResourceError::SwapChainNotFound(window_id),
            },
    {
        if !self.window_swap_chains.contains(window_id.0) {
            return Err(RenderResourceError::SwapChainNotFound(window_id));
        }
        let id = self.next_resource;
        self.next_resource = id + 1;
        proof {
            old(self).swap_chain_outputs.lemma_view_finite();
        }
        self.swap_chain_outputs.insert(id);
        Ok(RenderResource(id))
    }

    /// Releases one transient swap-chain handle.
    pub fn drop_swap_chain_texture(&mut self, resource: RenderResource)
        requires
            old(self).wf(),
        ensures
            final(self).wf(),
            final(self)@ == (SpecContext {
                swap_chain_outputs: old(self)@.swap_chain_outputs.remove(resource.0),
                ..old(self)@
            }),
    {
        self.swap_chain_outputs.remove(resource.0);
        proof {
            lemma_bounds_preserved(old(self)@, self@);
        }
    }

    /// Releases every transient swap-chain handle, however many accumulated.
    pub fn drop_all_swap_chain_textures(&mut self)
        requires
            old(self).wf(),
        ensures
            final(self).wf(),
            final(self)@ == (SpecContext {
                swap_chain_outputs: Set::<u64>::empty(),
                ..old(self)@
            }),
    {
        self.swap_chain_outputs.clear();
        proof {
            lemma_bounds_preserved(old(self)@, self@);
        }
    }

    /// How many transient swap-chain handles are currently live.
    pub fn swap_chain_texture_count(&self) -> (r: usize)
        requires
            self.wf(),
        ensures
            r == self@.swap_chain_outputs.len(),
    {
        self.swap_chain_outputs.len()
    }

    /// Associates (asset handle, slot index) with a realized resource,
    /// replacing any previous association.
    pub fn set_asset_resource_untyped(
        &mut self,
        handle: u64,
        render_resource: RenderResource,
        index: usize,
    )
        requires
            old(self).wf(),
        ensures
            final(self).wf(),
            final(self)@ == (SpecContext {
                asset_resources: old(self)@.asset_resources.insert(
                    (handle, index),
                    render_resource.0,
                ),
                ..old(self)@
            }),
    {
        self.asset_resources.push((handle, index, render_resource.0));
        proof {
            assert(self.asset_resources@.drop_last() =~= old(self).asset_resources@);
            lemma_bounds_preserved(old(self)@, self@);
        }
    }

    /// The resource associated with (asset handle, slot index), if any.
    pub fn get_asset_resource_untyped(&self, handle: u64, index: usize) -> (r: Option<
        RenderResource,
    >)
        ensures
            match r {
                Some(res) => self@.asset_resources.contains_key((handle, index)) && res.0
                    == self@.asset_resources[(handle, index)],
                None => !self@.asset_resources.contains_key((handle, index)),
            },
    {
        let mut i: usize = self.asset_resources.len();
        while i > 0
            invariant
                0 <= i <= self.asset_resources@.len(),
                forall|j: int| i <= j < self.asset_resources@.len() ==> (
                #[trigger] self.asset_resources@[j].0, self.asset_resources@[j].1) != (
                handle,
                index,
                ),
            decreases i,
        {
            i -= 1;
            if self.asset_resources[i].0 == handle && self.asset_resources[i].1 == index {
                proof {
                    lemma_asset_map_found(self.asset_resources@, (handle, index), i as int);
                }
                return Some(RenderResource(self.asset_resources[i].2));
            }
        }
        proof {
            lemma_asset_map_absent(self.asset_resources@, (handle, index));
        }
        None
    }

    /// Realizes the native layout object for a bind-group shape at most once:
    /// a shape already realized is a lookup, not a rebuild.
    pub fn create_bind_group_layout(&mut self, descriptor: &BindGroupDescriptor)
        requires
            old(self).wf(),
        ensures
            final(self).wf(),
            final(self)@ == (SpecContext {
                bind_group_layouts: spec_register_layout(
                    old(self)@.bind_group_layouts,
                    descriptor@,
                ),
                ..old(self)@
            }),
    {
        let mut i: usize = 0;
        while i < self.bind_group_layouts.len()
            invariant
                0 <= i <= self.bind_group_layouts@.len(),
                self == old(self),
                old(self).wf(),
                forall|j: int| 0 <= j < i ==> #[trigger] self.bind_group_layouts@[j]@
                    != descriptor@,
            decreases self.bind_group_layouts@.len() - i,
        {
            if bind_group_eq(&self.bind_group_layouts[i], descriptor) {
                proof {
                    assert(self@.bind_group_layouts[i as int] == descriptor@);
                    assert(self@.bind_group_layouts.contains(descriptor@));
                }
                return ;
            }
            i += 1;
        }
        proof {
            assert forall|j: int|
                0 <= j < old(self)@.bind_group_layouts.len() implies old(
                self,
            )@.bind_group_layouts[j] != descriptor@ by {
                assert(old(self).bind_group_layouts@[j]@ != descriptor@);
            }
            assert(!old(self)@.bind_group_layouts.contains(descriptor@));
        }
        self.bind_group_layouts.push(clone_bind_group(descriptor));
        proof {
            assert(self@.bind_group_layouts =~= old(self)@.bind_group_layouts.push(descriptor@));
            lemma_bounds_preserved(old(self)@, self@);
        }
    }

    /// Whether a native bind group exists for this (descriptor, resolved-set)
    /// identity.
    pub fn has_bind_group(
        &self,
        descriptor: &BindGroupDescriptor,
        set_id: &RenderResourceSetId,
    ) -> (r: bool)
        ensures
            r == self@.bind_groups.contains((descriptor@, set_id@)),
    {
        let mut i: usize = 0;
        while i < self.bind_groups.len()
            invariant
                0 <= i <= self.bind_groups@.len(),
                forall|j: int| 0 <= j < i ==> (#[trigger] self.bind_groups@[j].0@,
                self.bind_groups@[j].1@) != (descriptor@, set_id@),
            decreases self.bind_groups@.len() - i,
        {
            let hit = bind_group_eq(&self.bind_groups[i].0, descriptor) && set_id_eq(
                &self.bind_groups[i].1,
                set_id,
            );
            if hit {
                proof {
                    assert(self@.bind_groups[i as int] == (descriptor@, set_id@));
                    assert(self@.bind_groups.contains((descriptor@, set_id@)));
                }
                return true;
            }
            i += 1;
        }
        proof {
            assert forall|j: int| 0 <= j < self@.bind_groups.len() implies self@.bind_groups[j]
                != (descriptor@, set_id@) by {
                assert((self.bind_groups@[j].0@, self.bind_groups@[j].1@) != (
                    descriptor@,
                    set_id@,
                ));
            }
        }
        false
    }

    /// Resolves the identity of the resource set the descriptor's bindings
    /// name, and realizes the native bind group for that identity at most
    /// once. An unassigned binding is a fatal incomplete-binding error; a hit
    /// returns the identity with no native work; a miss checks that each
    /// resolved resource is registered, realizes the descriptor's layout if
    /// need be, and creates exactly one bind group.
    pub fn create_bind_group(
        &mut self,
        bind_group_descriptor: &BindGroupDescriptor,
        render_resource_assignments: &RenderResourceAssignments,
    ) -> (r: Result<RenderResourceSetId, RenderResourceError>)
        requires
            old(self).wf(),
        ensures
            final(self).wf(),
            r is Ok <==> spec_resource_set_id(bind_group_descriptor@, render_resource_assignments@)
                is Some && (old(self)@.bind_groups.contains(
                (bind_group_descriptor@, spec_resource_set_id(
                    bind_group_descriptor@,
                    render_resource_assignments@,
                )->Some_0),
            ) || spec_all_resolvable(
                old(self)@,
                bind_group_descriptor@,
                render_resource_assignments@,
            )),
            (r matches Err(RenderResourceError::MissingBinding { .. })) <==> spec_resource_set_id(
                bind_group_descriptor@,
                render_resource_assignments@,
            ) is None,
            match r {
                Result::Ok(sid) => {
                    &&& Some(sid@) == spec_resource_set_id(
                        bind_group_descriptor@,
                        render_resource_assignments@,
                    )
                    &&& final(self)@ == spec_cache_bind_group(
                        old(self)@,
                        bind_group_descriptor@,
                        sid@,
                    )
                },
                Result::Err(e) => {
                    &&& final(self)@ == old(self)@
                    &&& match e {
                        RenderResourceError::MissingBinding { binding_index } => {
                            &&& spec_resource_set_id(
                                bind_group_descriptor@,
                                render_resource_assignments@,
                            ) is None
                            &&& exists|j: int|
                                0 <= j < bind_group_descriptor@.bindings.len()
                                    && (#[trigger] bind_group_descriptor@.bindings[j]).index
                                    == binding_index && !render_resource_assignments@.contains_key(
                                    bind_group_descriptor@.bindings[j].name,
                                )
                        },
                        RenderResourceError::TextureNotFound(x) => {
                            &&& !old(self)@.textures.contains(x.0)
                            &&& exists|j: int|
                                0 <= j < bind_group_descriptor@.bindings.len() && spec_bound_of(
                                    render_resource_assignments@[(
                                    #[trigger] bind_group_descriptor@.bindings[j]).name],
                                ) == BoundResource::Texture(x)
                        },
                        RenderResourceError::SamplerNotFound(x) => {
                            &&& !old(self)@.samplers.contains(x.0)
                            &&& exists|j: int|
                                0 <= j < bind_group_descriptor@.bindings.len() && spec_bound_of(
                                    render_resource_assignments@[(
                                    #[trigger] bind_group_descriptor@.bindings[j]).name],
                                ) == BoundResource::Sampler(x)
                        },
                        RenderResourceError::BufferNotFound(x) => {
                            &&& !old(self)@.buffers.contains(x.0)
                            &&& exists|j: int|
                                0 <= j < bind_group_descriptor@.bindings.len() && (spec_bound_of(
                                    render_resource_assignments@[(
                                    #[trigger] bind_group_descriptor@.bindings[j]).name],
                                ) matches BoundResource::Buffer { resource, .. } && resource == x)
                        },
                        _ => false,
                    }
                },
            },
    {
        let set_id = match render_resource_assignments.render_resource_set_id(
            bind_group_descriptor,
        ) {
            Option::Some(id) => id,
            Option::None => {
                let mut i: usize = 0;
                while i < bind_group_descriptor.bindings.len()
                    invariant
                        0 <= i <= bind_group_descriptor.bindings@.len(),
                        self == old(self),
                        old(self).wf(),
                        spec_resource_set_id(
                            bind_group_descriptor@,
                            render_resource_assignments@,
                        ) is None,
                        forall|j: int| 0 <= j < i ==> render_resource_assignments@.contains_key(
                            (#[trigger] bind_group_descriptor.bindings@[j])@.name,
                        ),
                    decreases bind_group_descriptor.bindings@.len() - i,
                {
                    match render_resource_assignments.get(&bind_group_descriptor.bindings[i].name) {
                        Option::Some(_) => {
                            i += 1;
                        },
                        Option::None => {
                            proof {
                                assert(bind_group_descriptor@.bindings[i as int]
                                    == bind_group_descriptor.bindings@[i as int]@);
                            }
                            return Err(
                                RenderResourceError::MissingBinding {
                                    binding_index: bind_group_descriptor.bindings[i].index,
                                },
                            );
                        },
                    }
                }
                proof {
                    assert forall|j: int|
                        0 <= j < bind_group_descriptor@.bindings.len() implies
                        render_resource_assignments@.contains_key(
                            (#[trigger] bind_group_descriptor@.bindings[j]).name,
                        ) by {
                        assert(bind_group_descriptor@.bindings[j]
                            == bind_group_descriptor.bindings@[j]@);
                    }
                    assert(spec_resource_set_id(
                        bind_group_descriptor@,
                        render_resource_assignments@,
                    ) is Some);
                }
                vstd::pervasive::unreached()
            },
        };
        if self.has_bind_group(bind_group_descriptor, &set_id) {
            return Ok(set_id);
        }
        let mut k: usize = 0;
        while k < set_id.entries.len()
            invariant
                0 <= k <= set_id.entries@.len(),
                self == old(self),
                old(self).wf(),
                Some(set_id@) == spec_resource_set_id(
                    bind_group_descriptor@,
                    render_resource_assignments@,
                ),
                !old(self)@.bind_groups.contains((bind_group_descriptor@, set_id@)),
                forall|j: int| 0 <= j < k ==> spec_bound_resolvable(
                    old(self)@,
                    #[trigger] set_id.entries@[j],
                ),
            decreases set_id.entries@.len() - k,
        {
            proof {
                assert(set_id@[k as int] == spec_bound_of(
                    render_resource_assignments@[bind_group_descriptor@.bindings[k as int].name],
                ));
            }
            match set_id.entries[k] {
                BoundResource::Texture(x) => {
                    if !self.textures.contains(x.0) {
                        proof {
                            assert(!spec_assignment_resolvable(
                                old(self)@,
                                render_resource_assignments@[bind_group_descriptor@.bindings[
                                    k as int].name],
                            ));
                        }
                        return Err(RenderResourceError::TextureNotFound(x));
                    }
                },
                BoundResource::Sampler(x) => {
                    if !self.samplers.contains(x.0) {
                        proof {
                            assert(!spec_assignment_resolvable(
                                old(self)@,
                                render_resource_assignments@[bind_group_descriptor@.bindings[
                                    k as int].name],
                            ));
                        }
                        return Err(RenderResourceError::SamplerNotFound(x));
                    }
                },
                BoundResource::Buffer { resource, .. } => {
                    if !self.buffers.contains(resource.0) {
                        proof {
                            assert(!spec_assignment_resolvable(
                                old(self)@,
                                render_resource_assignments@[bind_group_descriptor@.bindings[
                                    k as int].name],
                            ));
                        }
                        return Err(RenderResourceError::BufferNotFound(resource));
                    }
                },
            }
            k += 1;
        }
        proof {
            lemma_resolvable_from_bounds(
                old(self)@,
                bind_group_descriptor@,
                render_resource_assignments@,
                set_id@,
            );
        }
        self.create_bind_group_layout(bind_group_descriptor);
        let stored_id = clone_set_id(&set_id);
        self.bind_groups.push((clone_bind_group(bind_group_descriptor), stored_id));
        proof {
            assert(self@.bind_groups =~= old(self)@.bind_groups.push(
                (bind_group_descriptor@, set_id@),
            ));
            lemma_bounds_preserved(old(self)@, self@);
        }
        Ok(set_id)
    }

    /// Builds the native pipeline for a handle at most once: a handle already
    /// realized is a no-op. Otherwise the descriptor's layout must have been
    /// reflected or supplied, its stages must resolve (unless already
    /// compiled), and then its bind-group layouts are realized, its shader
    /// modules compiled, and exactly one pipeline is created.
    pub fn create_render_pipeline(
        &mut self,
        pipeline_handle: PipelineHandle,
        pipeline_descriptor: &PipelineDescriptor,
        shaders: &ShaderStore,
    ) -> (r: Result<(), RenderResourceError>)
        requires
            old(self).wf(),
        ensures
            final(self).wf(),
            r is Ok <==> old(self)@.render_pipelines.contains(pipeline_handle.0) || (
            spec_current_layout(pipeline_descriptor@.layout) is Some && spec_stage_available(
                old(self)@,
                shaders@,
                pipeline_descriptor@.shader_stages.vertex,
            ) && (match pipeline_descriptor@.shader_stages.fragment {
                Option::Some(f) => spec_stage_available(old(self)@, shaders@, f),
                Option::None => true,
            })),
            r is Ok ==> final(self)@ == spec_create_pipeline(
                old(self)@,
                pipeline_handle.0,
                match spec_current_layout(pipeline_descriptor@.layout) {
                    Option::Some(l) => l.bind_groups,
                    Option::None => Seq::empty(),
                },
                pipeline_descriptor@.shader_stages.vertex.0,
                pipeline_descriptor@.shader_stages.fragment,
            ),
            match r {
                Result::Ok(()) => true,
                Result::Err(e) => {
                    &&& final(self)@ == old(self)@
                    &&& !old(self)@.render_pipelines.contains(pipeline_handle.0)
                    &&& match e {
                        RenderResourceError::PipelineLayoutMissing => spec_current_layout(
                            pipeline_descriptor@.layout,
                        ) is None,
                        RenderResourceError::ShaderNotFound(h) => !spec_stage_available(
                            old(self)@,
                            shaders@,
                            h,
                        ) && (h == pipeline_descriptor@.shader_stages.vertex
                            || pipeline_descriptor@.shader_stages.fragment == Some(h)),
                        _ => false,
                    }
                },
            },
    {
        let mut i: usize = 0;
        while i < self.render_pipelines.len()
            invariant
                0 <= i <= self.render_pipelines@.len(),
                self == old(self),
                old(self).wf(),
                forall|j: int| 0 <= j < i ==> self.render_pipelines@[j] != pipeline_handle.0,
            decreases self.render_pipelines@.len() - i,
        {
            if self.render_pipelines[i] == pipeline_handle.0 {
                proof {
                    assert(old(self)@.render_pipelines.contains(pipeline_handle.0));
                }
                return Ok(());
            }
            i += 1;
        }
        proof {
            assert(!old(self)@.render_pipelines.contains(pipeline_handle.0));
        }
        let layout = match pipeline_descriptor.get_layout() {
            Option::Some(l) => l,
            Option::None => {
                return Err(RenderResourceError::PipelineLayoutMissing);
            },
        };
        let vertex = pipeline_descriptor.shader_stages.vertex;
        if !self.has_shader_module(vertex) {
            if shaders.get(vertex).is_none() {
                return Err(RenderResourceError::ShaderNotFound(vertex));
            }
        }
        match pipeline_descriptor.shader_stages.fragment {
            Option::Some(fragment) => {
                if !self.has_shader_module(fragment) {
                    if shaders.get(fragment).is_none() {
                        return Err(RenderResourceError::ShaderNotFound(fragment));
                    }
                }
            },
            Option::None => {},
        }
        let ghost groups = spec_current_layout(pipeline_descriptor@.layout)->Some_0.bind_groups;
        let mut g: usize = 0;
        while g < layout.bind_groups.len()
            invariant
                0 <= g <= layout.bind_groups@.len(),
                self.wf(),
                old(self).wf(),
                groups.len() == layout.bind_groups@.len(),
                forall|j: int| 0 <= j < groups.len() ==> #[trigger] groups[j]
                    == layout.bind_groups@[j]@,
                self@ == (SpecContext {
                    bind_group_layouts: self@.bind_group_layouts,
                    ..old(self)@
                }),
                spec_register_layouts_from(old(self)@.bind_group_layouts, groups, 0)
                    == spec_register_layouts_from(self@.bind_group_layouts, groups, g as int),
            decreases layout.bind_groups@.len() - g,
        {
            proof {
                assert(spec_register_layouts_from(self@.bind_group_layouts, groups, g as int)
                    == spec_register_layouts_from(
                    spec_register_layout(self@.bind_group_layouts, groups[g as int]),
                    groups,
                    g as int + 1,
                ));
            }
            self.create_bind_group_layout(&layout.bind_groups[g]);
            g += 1;
        }
        let vertex_result = self.create_shader_module(vertex, shaders);
        proof {
            assert(vertex_result is Ok);
        }
        match pipeline_descriptor.shader_stages.fragment {
            Option::Some(fragment) => {
                proof {
                    let ms = old(self)@.shader_modules;
                    if ms.to_set().contains(fragment.0) && !ms.to_set().contains(vertex.0) {
                        let j = choose|j: int| 0 <= j < ms.len() && ms[j] == fragment.0;
                        assert(self@.shader_modules[j] == fragment.0);
                        assert(self@.shader_modules.contains(fragment.0));
                    }
                }
                let fragment_result = self.create_shader_module(fragment, shaders);
                proof {
                    assert(fragment_result is Ok);
                }
            },
            Option::None => {},
        }
        self.render_pipelines.push(pipeline_handle.0);
        proof {
            lemma_bounds_preserved(old(self)@, self@);
            assert(self@.render_pipelines.no_duplicates()) by {
                assert(forall|j: int|
                    0 <= j < old(self)@.render_pipelines.len()
                        ==> old(self)@.render_pipelines[j] != pipeline_handle.0);
            }
        }
        Ok(())
    }
}



/// Whether one resolved binding value names a registered resource.
pub open spec fn spec_bound_resolvable(m: SpecContext, b: BoundResource) -> bool {
    match b {
        BoundResource::Texture(t) => m.textures.contains(t.0),
        BoundResource::Sampler(s) => m.samplers.contains(s.0),
        BoundResource::Buffer { resource, .. } => m.buffers.contains(resource.0),
    }
}

/// Whether a stage can be realized: its module is compiled already, or its
/// shader resolves in the store.
pub open spec fn spec_stage_available(
    m: SpecContext,
    store: Map<u64, crate::shader::SpecShader>,
    h: ShaderHandle,
) -> bool {
    m.shader_modules.to_set().contains(h.0) || store.contains_key(h.0)
}

/// When every entry of a resolved set names a registered resource, every
/// binding of the descriptor resolves.
proof fn lemma_resolvable_from_bounds(
    m: SpecContext,
    d: SpecBindGroup,
    asg: Map<Seq<char>, RenderResourceAssignment>,
    sid: Seq<BoundResource>,
)
    requires
        spec_resource_set_id(d, asg) == Some(sid),
        forall|j: int| 0 <= j < sid.len() ==> spec_bound_resolvable(m, #[trigger] sid[j]),
    ensures
        spec_all_resolvable(m, d, asg),
{
    assert forall|i: int| 0 <= i < d.bindings.len() implies spec_assignment_resolvable(
        m,
        asg[#[trigger] d.bindings[i].name],
    ) by {
        assert(sid[i] == spec_bound_of(asg[d.bindings[i].name]));
    }
}

/// Copies a resolved-set identity; the copy has the same view.
fn clone_set_id(id: &RenderResourceSetId) -> (r: RenderResourceSetId)
    ensures
        r@ == id@,
{
    let mut entries: Vec<BoundResource> = Vec::new();
    let mut i: usize = 0;
    while i < id.entries.len()
        invariant
            0 <= i <= id.entries@.len(),
            entries@.len() == i,
            forall|j: int| 0 <= j < i ==> entries@[j] == id.entries@[j],
        decreases id.entries@.len() - i,
    {
        entries.push(id.entries[i]);
        i += 1;
    }
    let r = RenderResourceSetId { entries };
    proof {
        assert(r@ =~= id@);
    }
    r
}

/// Bind-group cache idempotence: a second get-or-create under an unchanged
/// (descriptor, resolved-set) identity leaves the context exactly as the
/// first left it; in particular no second native bind group is created.
pub proof fn lemma_bind_group_cache_idempotent(
    m: SpecContext,
    g: SpecBindGroup,
    sid: Seq<BoundResource>,
)
    ensures
        spec_cache_bind_group(spec_cache_bind_group(m, g, sid), g, sid) == spec_cache_bind_group(
            m,
            g,
            sid,
        ),
{
    let m1 = spec_cache_bind_group(m, g, sid);
    if !m.bind_groups.contains((g, sid)) {
        assert(m1.bind_groups[m.bind_groups.len() as int] == (g, sid));
        assert(m1.bind_groups.contains((g, sid)));
    }
}

/// Pipeline memoization: a second creation request for the same handle
/// performs no work, so native pipeline construction happens exactly once
/// per handle.
pub proof fn lemma_pipeline_memoization(
    m: SpecContext,
    h: u64,
    groups: Seq<SpecBindGroup>,
    vertex: u64,
    fragment: Option<ShaderHandle>,
)
    ensures
        spec_create_pipeline(spec_create_pipeline(m, h, groups, vertex, fragment), h, groups, vertex, fragment)
            == spec_create_pipeline(m, h, groups, vertex, fragment),
{
    let m1 = spec_create_pipeline(m, h, groups, vertex, fragment);
    if !m.render_pipelines.contains(h) {
        assert(m1.render_pipelines[m.render_pipelines.len() as int] == h);
        assert(m1.render_pipelines.contains(h));
    }
}

/// The transient-output set after acquiring one image per entry of `fresh`,
/// from position `i` on, without dropping any.
pub open spec fn spec_acquire_all(outputs: Set<u64>, fresh: Seq<u64>, i: int) -> Set<u64>
    decreases fresh.len() - i
        when 0 <= i <= fresh.len()
{
    if i == fresh.len() {
        outputs
    } else {
        spec_acquire_all(outputs.insert(fresh[i]), fresh, i + 1)
    }
}

proof fn lemma_acquire_all_len(outputs: Set<u64>, fresh: Seq<u64>, i: int)
    requires
        outputs.finite(),
        0 <= i <= fresh.len(),
        fresh.no_duplicates(),
        forall|j: int| i <= j < fresh.len() ==> !outputs.contains(#[trigger] fresh[j]),
    ensures
        spec_acquire_all(outputs, fresh, i).finite(),
        spec_acquire_all(outputs, fresh, i).len() == outputs.len() + (fresh.len() - i),
    decreases fresh.len() - i,
{
    if i < fresh.len() {
        let next = outputs.insert(fresh[i]);
        assert(next.len() == outputs.len() + 1);
        assert forall|j: int| i + 1 <= j < fresh.len() implies !next.contains(
            #[trigger] fresh[j],
        ) by {
            assert(fresh[j] != fresh[i]);
        }
        lemma_acquire_all_len(next, fresh, i + 1);
    }
}

/// Swap-chain turnover: acquiring any number of images without dropping any
/// accumulates exactly that many transient handles (each acquisition returns
/// a handle distinct from every live one), and dropping them all leaves zero,
/// however many accumulated.
pub proof fn lemma_swap_chain_turnover(outputs: Set<u64>, fresh: Seq<u64>)
    requires
        outputs.finite(),
        fresh.no_duplicates(),
        forall|i: int| 0 <= i < fresh.len() ==> !outputs.contains(#[trigger] fresh[i]),
    ensures
        spec_acquire_all(outputs, fresh, 0).finite(),
        spec_acquire_all(outputs, fresh, 0).len() == outputs.len() + fresh.len(),
        Set::<u64>::empty().len() == 0,
{
    lemma_acquire_all_len(outputs, fresh, 0);
}

} // verus!
