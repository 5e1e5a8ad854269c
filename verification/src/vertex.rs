//! Vertex-buffer layouts: stride, step mode, and per-attribute offset and
//! format, plus the named collection of externally supplied layouts that can
//! override what reflection inferred.

use vstd::prelude::*;

verus! {

#[derive(Clone, Copy, Debug, PartialEq, Eq, Structural)]
pub enum VertexFormat {
    Uchar4Norm,
    Float,
    Float2,
    Float3,
    Float4,
    Int,
    Uint,
}

#[derive(Clone, Copy, Debug, PartialEq, Eq, Structural)]
pub enum InputStepMode {
    Vertex,
    Instance,
}

/// One vertex attribute: name, byte offset within the buffer element, format,
/// and the shader location it feeds.
#[derive(Clone, Debug, PartialEq, Eq)]
pub struct VertexAttributeDescriptor {
    pub name: String,
    pub offset: u64,
    pub format: VertexFormat,
    pub shader_location: u32,
}

/// Mathematical image of a `VertexAttributeDescriptor`.
pub ghost struct SpecVertexAttribute {
    pub name: Seq<char>,
    pub offset: u64,
    pub format: VertexFormat,
    pub shader_location: u32,
}

impl View for VertexAttributeDescriptor {
    type V = SpecVertexAttribute;

    open spec fn view(&self) -> SpecVertexAttribute {
        SpecVertexAttribute {
            name: self.name@,
            offset: self.offset,
            format: self.format,
            shader_location: self.shader_location,
        }
    }
}

/// One vertex buffer's layout.
#[derive(Clone, Debug, PartialEq, Eq)]
pub struct VertexBufferDescriptor {
    pub name: String,
    pub stride: u64,
    pub step_mode: InputStepMode,
    pub attributes: Vec<VertexAttributeDescriptor>,
}

/// Mathematical image of a `VertexBufferDescriptor`.
pub ghost struct SpecVertexBuffer {
    pub name: Seq<char>,
    pub stride: u64,
    pub step_mode: InputStepMode,
    pub attributes: Seq<SpecVertexAttribute>,
}

impl View for VertexBufferDescriptor {
    type V = SpecVertexBuffer;

    open spec fn view(&self) -> SpecVertexBuffer {
        SpecVertexBuffer {
            name: self.name@,
            stride: self.stride,
            step_mode: self.step_mode,
            attributes: Seq::new(self.attributes@.len(), |i: int| self.attributes@[i]@),
        }
    }
}

/// The views of a sequence of vertex-buffer descriptors.
pub open spec fn spec_vertex_buffers_of(vs: Seq<VertexBufferDescriptor>) -> Seq<SpecVertexBuffer> {
    Seq::new(vs.len(), |i: int| vs[i]@)
}

/// Copies a vertex attribute; the copy has the same view.
pub fn clone_vertex_attribute(a: &VertexAttributeDescriptor) -> (r: VertexAttributeDescriptor)
    ensures
        r@ == a@,
{
    VertexAttributeDescriptor {
        name: a.name.clone(),
        offset: a.offset,
        format: a.format,
        shader_location: a.shader_location,
    }
}

/// Copies a vertex buffer descriptor; the copy has the same view.
pub fn clone_vertex_buffer(v: &VertexBufferDescriptor) -> (r: VertexBufferDescriptor)
    ensures
        r@ == v@,
{
    let mut attributes: Vec<VertexAttributeDescriptor> = Vec::new();
    let mut i: usize = 0;
    while i < v.attributes.len()
        invariant
            0 <= i <= v.attributes@.len(),
            attributes@.len() == i,
            forall|j: int| 0 <= j < i ==> attributes@[j]@ == v.attributes@[j]@,
        decreases v.attributes@.len() - i,
    {
        attributes.push(clone_vertex_attribute(&v.attributes[i]));
        i += 1;
    }
    let r = VertexBufferDescriptor {
        name: v.name.clone(),
        stride: v.stride,
        step_mode: v.step_mode,
        attributes,
    };
    proof {
        assert(r@.attributes =~= v@.attributes);
        assert(r@ == v@);
    }
    r
}

/// A collection of vertex-buffer layouts, one per buffer name. When supplied
/// to reflection it is authoritative for stride and attribute layout.
pub struct VertexBufferDescriptors {
    pub descriptors: Vec<VertexBufferDescriptor>,
}

impl View for VertexBufferDescriptors {
    type V = Map<Seq<char>, SpecVertexBuffer>;

    /// The collection viewed as a map from buffer name to layout; on a
    /// duplicated name the later entry wins, as `set` writes later entries.
    open spec fn view(&self) -> Map<Seq<char>, SpecVertexBuffer> {
        Self::spec_map_of(self.descriptors@.map_values(|d: VertexBufferDescriptor| d@))
    }
}

impl VertexBufferDescriptors {
    /// The name-to-layout map described by a sequence of layouts.
    pub open spec fn spec_map_of(ds: Seq<SpecVertexBuffer>) -> Map<Seq<char>, SpecVertexBuffer>
        decreases ds.len(),
    {
        if ds.len() == 0 {
            Map::empty()
        } else {
            Self::spec_map_of(ds.drop_last()).insert(ds.last().name, ds.last())
        }
    }

    pub fn new() -> (r: Self)
        ensures
            r@ == Map::<Seq<char>, SpecVertexBuffer>::empty(),
    {
        VertexBufferDescriptors { descriptors: Vec::new() }
    }

    /// Registers a layout under its name, replacing any previous layout of
    /// that name.
    pub fn set(&mut self, descriptor: VertexBufferDescriptor)
        ensures
            final(self)@ == old(self)@.insert(descriptor@.name, descriptor@),
    {
        self.descriptors.push(descriptor);
        proof {
            assert(self.descriptors@.map_values(|d: VertexBufferDescriptor| d@).drop_last()
                =~= old(self).descriptors@.map_values(|d: VertexBufferDescriptor| d@));
        }
    }

    /// Looks a layout up by buffer name.
    pub fn get(&self, name: &String) -> (r: Option<&VertexBufferDescriptor>)
        ensures
            match r {
                Some(d) => self@.contains_key(name@) && d@ == self@[name@],
                None => !self@.contains_key(name@),
            },
    {
        let mut i: usize = self.descriptors.len();
        while i > 0
            invariant
                0 <= i <= self.descriptors@.len(),
                forall|j: int| i <= j < self.descriptors@.len()
                    ==> self.descriptors@[j]@.name != name@,
            decreases i,
        {
            i -= 1;
            if self.descriptors[i].name == *name {
                proof {
                    Self::lemma_map_of_found(
                        self.descriptors@.map_values(|d: VertexBufferDescriptor| d@),
                        name@,
                        i as int,
                    );
                }
                return Some(&self.descriptors[i]);
            }
        }
        proof {
            Self::lemma_map_of_absent(
                self.descriptors@.map_values(|d: VertexBufferDescriptor| d@),
                name@,
            );
        }
        None
    }

    /// If index `i` holds the last occurrence of `name`, the map sends `name`
    /// to that entry.
    proof fn lemma_map_of_found(ds: Seq<SpecVertexBuffer>, name: Seq<char>, i: int)
        requires
            0 <= i < ds.len(),
            ds[i].name == name,
            forall|j: int| i < j < ds.len() ==> ds[j].name != name,
        ensures
            Self::spec_map_of(ds).contains_key(name),
            Self::spec_map_of(ds)[name] == ds[i],
        decreases ds.len(),
    {
        if i == ds.len() - 1 {
        } else {
            Self::lemma_map_of_found(ds.drop_last(), name, i);
        }
    }

    /// A name no entry carries is not in the map.
    proof fn lemma_map_of_absent(ds: Seq<SpecVertexBuffer>, name: Seq<char>)
        requires
            forall|j: int| 0 <= j < ds.len() ==> ds[j].name != name,
        ensures
            !Self::spec_map_of(ds).contains_key(name),
        decreases ds.len(),
    {
        if ds.len() > 0 {
            Self::lemma_map_of_absent(ds.drop_last(), name);
        }
    }
}

} // verus!
