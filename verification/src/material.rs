//! Material descriptions and the cached material resource.
//!
//! A material names the pipeline it draws with and the textures it binds.
//! The cached resource keeps the handles it acquired for those dependencies,
//! which is what keeps them alive in the cache.

use vstd::prelude::*;

verus! {

/// The abstract value of a [`MaterialSpec`].
pub struct MaterialSpecView {
    pub pipeline: Seq<char>,
    pub textures: Seq<Seq<char>>,
}

/// Specifies how to create a material.
#[derive(Debug)]
pub struct MaterialSpec {
    pub pipeline: String,
    pub textures: Vec<String>,
}

impl View for MaterialSpec {
    type V = MaterialSpecView;

    open spec fn view(&self) -> MaterialSpecView {
        MaterialSpecView {
            pipeline: self.pipeline@,
            textures: Seq::new(self.textures@.len(), |i: int| self.textures@[i]@),
        }
    }
}

impl MaterialSpec {
    /// An exact copy of this description.
    pub fn duplicate(&self) -> (r: MaterialSpec)
        ensures
            r@ == self@,
    {
        let mut textures: Vec<String> = Vec::new();
        let n = self.textures.len();
        let mut i: usize = 0;
        while i < n
            invariant
                n == self.textures@.len(),
                0 <= i <= n,
                textures@.len() == i,
                forall|j: int| 0 <= j < i ==> (#[trigger] textures@[j])@ == self.textures@[j]@,
            decreases n - i,
        {
            textures.push(self.textures[i].clone());
            i += 1;
        }
        let r = MaterialSpec { pipeline: self.pipeline.clone(), textures };
        proof {
            assert(r@.textures =~= self@.textures);
            assert(r@ == self@);
        }
        r
    }
}

/// The abstract value of a [`Material`].
pub struct MaterialView {
    pub spec: MaterialSpecView,
    pub pipeline_handle: u64,
    pub texture_handles: Seq<u64>,
}

/// A cached material: its description and the handles it holds on its
/// pipeline and textures.
#[derive(Debug)]
pub struct Material {
    pub spec: MaterialSpec,
    pub pipeline_handle: u64,
    pub texture_handles: Vec<u64>,
}

impl View for Material {
    type V = MaterialView;

    open spec fn view(&self) -> MaterialView {
        MaterialView {
            spec: self.spec@,
            pipeline_handle: self.pipeline_handle,
            texture_handles: self.texture_handles@,
        }
    }
}

impl Material {
    pub fn new(spec: MaterialSpec, pipeline_handle: u64, texture_handles: Vec<u64>) -> (r: Material)
        ensures
            r.spec == spec,
            r.pipeline_handle == pipeline_handle,
            r.texture_handles == texture_handles,
    {
        Material { spec, pipeline_handle, texture_handles }
    }

    /// The handle of the pipeline this material draws with.
    pub fn pipeline(&self) -> (r: u64)
        ensures
            r == self.pipeline_handle,
    {
        self.pipeline_handle
    }

    /// The handles of the textures this material binds.
    pub fn textures(&self) -> (r: &Vec<u64>)
        ensures
            r == &self.texture_handles,
    {
        &self.texture_handles
    }
}

} // verus!
