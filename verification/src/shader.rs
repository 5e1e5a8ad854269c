//! Shader references and the asset-store boundary. Shader source is compiled
//! and its bytecode reflected by external collaborators; the store hands this
//! layer each stage's kind together with the per-stage layouts the external
//! reflector reported, with and without naming-convention inference.

use vstd::prelude::*;
use crate::layout::{ShaderLayout, SpecShaderLayout};

verus! {

/// A handle into the shader asset store.
#[derive(Clone, Copy, Debug, PartialEq, Eq, Structural, Hash, PartialOrd, Ord)]
pub struct ShaderHandle(pub u64);

#[derive(Clone, Copy, Debug, PartialEq, Eq, Structural)]
pub enum ShaderStage {
    Vertex,
    Fragment,
}

/// The shader references of a pipeline: a mandatory vertex stage and an
/// optional fragment stage.
#[derive(Clone, Copy, Debug, PartialEq, Eq, Structural)]
pub struct ShaderStages {
    pub vertex: ShaderHandle,
    pub fragment: Option<ShaderHandle>,
}

/// One compiled shader as this layer sees it: its stage kind and the layouts
/// the external bytecode reflector derived from it, without and with
/// naming-convention inference.
pub struct Shader {
    pub stage: ShaderStage,
    pub layout: ShaderLayout,
    pub layout_with_conventions: ShaderLayout,
}

/// Mathematical image of a `Shader`.
pub ghost struct SpecShader {
    pub stage: ShaderStage,
    pub layout: SpecShaderLayout,
    pub layout_with_conventions: SpecShaderLayout,
}

impl View for Shader {
    type V = SpecShader;

    open spec fn view(&self) -> SpecShader {
        SpecShader {
            stage: self.stage,
            layout: self.layout@,
            layout_with_conventions: self.layout_with_conventions@,
        }
    }
}

/// The stage layout the external reflector reports for a shader under the
/// given inference setting.
pub open spec fn spec_stage_layout(s: SpecShader, use_naming_convention: bool) -> SpecShaderLayout {
    if use_naming_convention {
        s.layout_with_conventions
    } else {
        s.layout
    }
}

impl Shader {
    /// The reflected layout of this shader under the given inference setting.
    pub fn reflected_layout(&self, use_naming_convention: bool) -> (r: &ShaderLayout)
        ensures
            r@ == spec_stage_layout(self@, use_naming_convention),
    {
        if use_naming_convention {
            &self.layout_with_conventions
        } else {
            &self.layout
        }
    }
}

/// The shader asset store, at the narrow interface this layer relies on: a
/// lookup from handle to shader, and registration under fresh handles.
pub struct ShaderStore {
    pub next_handle: u64,
    pub shaders: Vec<(u64, Shader)>,
}

impl View for ShaderStore {
    type V = Map<u64, SpecShader>;

    /// The store viewed as a map from handle identifier to shader; on a
    /// repeated handle the later entry wins.
    open spec fn view(&self) -> Map<u64, SpecShader> {
        Self::spec_map_of(self.shaders@.map_values(|e: (u64, Shader)| (e.0, e.1@)))
    }
}

impl ShaderStore {
    /// The handle-to-shader map described by a sequence of entries.
    pub open spec fn spec_map_of(es: Seq<(u64, SpecShader)>) -> Map<u64, SpecShader>
        decreases es.len(),
    {
        if es.len() == 0 {
            Map::empty()
        } else {
            Self::spec_map_of(es.drop_last()).insert(es.last().0, es.last().1)
        }
    }

    /// Every handle the store may hand out is above the handles it holds.
    pub open spec fn wf(&self) -> bool {
        forall|i: int| 0 <= i < self.shaders@.len() ==> #[trigger] self.shaders@[i].0
            < self.next_handle
    }

    pub fn new() -> (r: Self)
        ensures
            r@ == Map::<u64, SpecShader>::empty(),
            r.wf(),
            r.next_handle == 0u64,
    {
        ShaderStore { next_handle: 0, shaders: Vec::new() }
    }

    /// Registers a shader under a fresh handle.
    pub fn add(&mut self, shader: Shader) -> (r: ShaderHandle)
        requires
            old(self).wf(),
            old(self).next_handle < u64::MAX,
        ensures
            final(self).wf(),
            final(self).next_handle == old(self).next_handle + 1,
            r.0 == old(self).next_handle,
            !old(self)@.contains_key(r.0),
            final(self)@ == old(self)@.insert(r.0, shader@),
    {
        let handle = self.next_handle;
        let ghost sv = shader@;
        self.shaders.push((handle, shader));
        self.next_handle = handle + 1;
        proof {
            assert(self.shaders@.map_values(|e: (u64, Shader)| (e.0, e.1@)).drop_last()
                =~= old(self).shaders@.map_values(|e: (u64, Shader)| (e.0, e.1@)));
            Self::lemma_map_of_absent(
                old(self).shaders@.map_values(|e: (u64, Shader)| (e.0, e.1@)),
                handle,
            );
        }
        ShaderHandle(handle)
    }

    /// Looks a shader up by handle.
    pub fn get(&self, handle: ShaderHandle) -> (r: Option<&Shader>)
        ensures
            match r {
                Some(s) => self@.contains_key(handle.0) && s@ == self@[handle.0],
                None => !self@.contains_key(handle.0),
            },
    {
        let mut i: usize = self.shaders.len();
        while i > 0
            invariant
                0 <= i <= self.shaders@.len(),
                forall|j: int| i <= j < self.shaders@.len() ==> #[trigger] self.shaders@[j].0
                    != handle.0,
            decreases i,
        {
            i -= 1;
            if self.shaders[i].0 == handle.0 {
                proof {
                    Self::lemma_map_of_found(
                        self.shaders@.map_values(|e: (u64, Shader)| (e.0, e.1@)),
                        handle.0,
                        i as int,
                    );
                }
                return Some(&self.shaders[i].1);
            }
        }
        proof {
            Self::lemma_map_of_absent(
                self.shaders@.map_values(|e: (u64, Shader)| (e.0, e.1@)),
                handle.0,
            );
        }
        None
    }

    /// If index `i` holds the last occurrence of `handle`, the map sends
    /// `handle` to that entry's shader.
    proof fn lemma_map_of_found(es: Seq<(u64, SpecShader)>, handle: u64, i: int)
        requires
            0 <= i < es.len(),
            es[i].0 == handle,
            forall|j: int| i < j < es.len() ==> es[j].0 != handle,
        ensures
            Self::spec_map_of(es).contains_key(handle),
            Self::spec_map_of(es)[handle] == es[i].1,
        decreases es.len(),
    {
        if i < es.len() - 1 {
            Self::lemma_map_of_found(es.drop_last(), handle, i);
        }
    }

    /// A handle no entry carries is not in the map.
    proof fn lemma_map_of_absent(es: Seq<(u64, SpecShader)>, handle: u64)
        requires
            forall|j: int| 0 <= j < es.len() ==> es[j].0 != handle,
        ensures
            !Self::spec_map_of(es).contains_key(handle),
        decreases es.len(),
    {
        if es.len() > 0 {
            Self::lemma_map_of_absent(es.drop_last(), handle);
        }
    }
}

} // verus!
