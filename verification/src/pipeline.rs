//! Pipeline descriptions and the cached pipeline resource.
//!
//! A pipeline is described by its shader paths, the path of the render pass
//! it draws into, and its descriptor set layouts. The cached resource keeps
//! the handle of the render pass it was built against, so staleness after a
//! swapchain change is observable by identity.

use crate::descriptors::{DescriptorSetLayoutBindingView, DescriptorSetLayoutSpec};
use crate::graphics::Extent2D;
use vstd::prelude::*;

verus! {

/// The abstract value of a [`PipelineSpec`].
pub struct PipelineSpecView {
    pub vertex_shader: Seq<char>,
    pub fragment_shader: Seq<char>,
    pub geometry_shader: Seq<char>,
    pub renderpass: Seq<char>,
    pub layouts: Seq<Seq<DescriptorSetLayoutBindingView>>,
}

/// Specifies how to create a pipeline.
#[derive(Debug)]
pub struct PipelineSpec {
    pub vertex_shader: String,
    pub fragment_shader: String,
    pub geometry_shader: String,
    pub renderpass: String,
    pub layouts: Vec<DescriptorSetLayoutSpec>,
}

impl View for PipelineSpec {
    type V = PipelineSpecView;

    open spec fn view(&self) -> PipelineSpecView {
        PipelineSpecView {
            vertex_shader: self.vertex_shader@,
            fragment_shader: self.fragment_shader@,
            geometry_shader: self.geometry_shader@,
            renderpass: self.renderpass@,
            layouts: Seq::new(self.layouts@.len(), |i: int| self.layouts@[i]@),
        }
    }
}

impl PipelineSpec {
    /// An exact copy of this description.
    pub fn duplicate(&self) -> (r: PipelineSpec)
        ensures
            r@ == self@,
    {
        let mut layouts: Vec<DescriptorSetLayoutSpec> = Vec::new();
        let n = self.layouts.len();
        let mut i: usize = 0;
        while i < n
            invariant
                n == self.layouts@.len(),
                0 <= i <= n,
                layouts@.len() == i,
                forall|j: int| 0 <= j < i ==> (#[trigger] layouts@[j])@ == self.layouts@[j]@,
            decreases n - i,
        {
            layouts.push(self.layouts[i].duplicate());
            i += 1;
        }
        let r = PipelineSpec {
            vertex_shader: self.vertex_shader.clone(),
            fragment_shader: self.fragment_shader.clone(),
            geometry_shader: self.geometry_shader.clone(),
            renderpass: self.renderpass.clone(),
            layouts,
        };
        proof {
            assert(r@.layouts =~= self@.layouts);
            assert(r@ == self@);
        }
        r
    }
}

/// The abstract value of a [`Pipeline`].
pub struct PipelineView {
    pub spec: PipelineSpecView,
    pub renderpass_handle: u64,
    pub extent: Extent2D,
}

/// A cached pipeline: its description, the handle of the render pass it was
/// built against, and the surface extent its viewport covers.
#[derive(Debug)]
pub struct Pipeline {
    pub spec: PipelineSpec,
    pub renderpass_handle: u64,
    pub extent: Extent2D,
}

impl View for Pipeline {
    type V = PipelineView;

    open spec fn view(&self) -> PipelineView {
        PipelineView {
            spec: self.spec@,
            renderpass_handle: self.renderpass_handle,
            extent: self.extent,
        }
    }
}

impl Pipeline {
    pub fn new(spec: PipelineSpec, renderpass_handle: u64, extent: Extent2D) -> (r: Pipeline)
        ensures
            r.spec == spec,
            r.renderpass_handle == renderpass_handle,
            r.extent == extent,
    {
        Pipeline { spec, renderpass_handle, extent }
    }

    /// The descriptor set layouts this pipeline was described with.
    pub fn set_layouts(&self) -> (r: &Vec<DescriptorSetLayoutSpec>)
        ensures
            r == &self.spec.layouts,
    {
        &self.spec.layouts
    }
}

} // verus!
