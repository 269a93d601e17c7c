//! The cached model resource: the meshes a loaded model file provides.

use crate::util::copy_vec;
use vstd::prelude::*;

verus! {

/// One mesh of a model: how many vertices and indices its buffers hold.
#[derive(Copy, Clone, Debug, PartialEq, Eq, Structural)]
pub struct Mesh {
    pub vertex_count: u32,
    pub index_count: u32,
}

impl Mesh {
    pub fn index_count(&self) -> (r: u32)
        ensures
            r == self.index_count,
    {
        self.index_count
    }

    pub fn vertex_count(&self) -> (r: u32)
        ensures
            r == self.vertex_count,
    {
        self.vertex_count
    }
}

/// The abstract value of a [`Model`].
pub struct ModelView {
    pub meshes: Seq<Mesh>,
}

/// A cached model: the meshes parsed from a model file.
#[derive(Debug)]
pub struct Model {
    pub meshes: Vec<Mesh>,
}

impl View for Model {
    type V = ModelView;

    open spec fn view(&self) -> ModelView {
        ModelView { meshes: self.meshes@ }
    }
}

impl Model {
    pub fn new(meshes: Vec<Mesh>) -> (r: Model)
        ensures
            r.meshes == meshes,
    {
        Model { meshes }
    }

    /// An exact copy of this model.
    pub fn duplicate(&self) -> (r: Model)
        ensures
            r@ == self@,
    {
        Model { meshes: copy_vec(&self.meshes) }
    }

    /// The mesh at the given index, or `None` if the model has fewer meshes.
    pub fn get_mesh_index(&self, index: usize) -> (r: Option<&Mesh>)
        ensures
            r is Some <==> index < self.meshes@.len(),
            r matches Some(m) ==> *m == self.meshes@[index as int],
    {
        if index < self.meshes.len() {
            Some(&self.meshes[index])
        } else {
            None
        }
    }
}

} // verus!
