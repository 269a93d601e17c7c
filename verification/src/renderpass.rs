//! Render pass descriptions and the cached render pass resource.
//!
//! A render pass is described by plain data loaded from a file; the cached
//! resource pairs that description with the surface formats it was built
//! against, so a swapchain change can rebuild it from its own description.

use crate::enums::{AccessFlags, AttachmentLoadOp, AttachmentStoreOp, ImageLayout, PipelineStage};
use crate::util::copy_vec;
use vstd::prelude::*;

verus! {

/// An execution and memory dependency between two subpasses.
#[derive(Copy, Clone, Debug)]
pub struct SubpassDependency {
    pub src_subpass: SubpassIndex,
    pub dst_subpass: SubpassIndex,
    pub src_stage: PipelineStage,
    pub dst_stage: PipelineStage,
    pub src_access: AccessFlags,
    pub dst_access: AccessFlags,
}

/// A subpass position in a dependency: one of the pass's own subpasses, or
/// the external pseudo subpass that stands for everything before or after
/// the pass.
#[derive(Copy, Clone, Debug, PartialEq, Eq, Structural)]
pub enum SubpassIndex {
    External,
    Internal(u32),
}

impl SubpassIndex {
    /// The raw index value: the reserved all-ones value stands for the
    /// external subpass.
    pub open spec fn raw_value(self) -> u32 {
        match self {
            SubpassIndex::External => 0xFFFF_FFFF,
            SubpassIndex::Internal(index) => index,
        }
    }

    pub fn raw(self) -> (r: u32)
        ensures
            r == self.raw_value(),
    {
        match self {
            SubpassIndex::External => 0xFFFF_FFFF,
            SubpassIndex::Internal(index) => index,
        }
    }
}

/// Whether an attachment takes the surface's color format, the depth format,
/// or no format at all.
#[derive(Copy, Clone, Debug, PartialEq, Eq, Structural)]
pub enum ImageFormat {
    Undefined,
    Color,
    Depth,
}

/// Describes an attachment in a renderpass.
/// The order in `RenderPassSpec` gives each attachment its index.
#[derive(Copy, Clone, Debug)]
pub struct Attachment {
    pub store_op: AttachmentStoreOp,
    pub load_op: AttachmentLoadOp,
    pub initial_layout: ImageLayout,
    pub final_layout: ImageLayout,
    /// The layout while in shader processing.
    pub layout: ImageLayout,
    pub sample_count: u32,
    pub format: ImageFormat,
}

impl Attachment {
    /// The raw format this attachment resolves to, given the surface's
    /// current color and depth formats.
    pub open spec fn spec_resolve_format(self, color_format: u32, depth_format: u32) -> u32 {
        match self.format {
            ImageFormat::Color => color_format,
            ImageFormat::Depth => depth_format,
            ImageFormat::Undefined => 0,
        }
    }

    pub fn resolve_format(&self, color_format: u32, depth_format: u32) -> (r: u32)
        ensures
            r == self.spec_resolve_format(color_format, depth_format),
    {
        match self.format {
            ImageFormat::Color => color_format,
            ImageFormat::Depth => depth_format,
            ImageFormat::Undefined => 0,
        }
    }
}

/// The abstract value of a [`Subpass`].
pub struct SubpassView {
    pub color_attachments: Seq<usize>,
    pub depth_attachment: Option<usize>,
}

/// One subpass: which attachments it writes, by index into the render pass's
/// attachment list.
#[derive(Debug)]
pub struct Subpass {
    pub color_attachments: Vec<usize>,
    pub depth_attachment: Option<usize>,
}

impl View for Subpass {
    type V = SubpassView;

    open spec fn view(&self) -> SubpassView {
        SubpassView {
            color_attachments: self.color_attachments@,
            depth_attachment: self.depth_attachment,
        }
    }
}

impl Subpass {
    /// An exact copy of this subpass description.
    pub fn duplicate(&self) -> (r: Subpass)
        ensures
            r@ == self@,
    {
        Subpass {
            color_attachments: copy_vec(&self.color_attachments),
            depth_attachment: self.depth_attachment,
        }
    }
}

/// The abstract value of a [`RenderPassSpec`].
pub struct RenderPassSpecView {
    pub subpasses: Seq<SubpassView>,
    pub dependencies: Seq<SubpassDependency>,
    pub attachments: Seq<Attachment>,
}

/// Specifies how to create a renderpass.
#[derive(Debug)]
pub struct RenderPassSpec {
    pub subpasses: Vec<Subpass>,
    pub dependencies: Vec<SubpassDependency>,
    /// All attachments part of a renderpass, both color and depth
    /// attachments. Their use is specified by index in `subpasses`.
    pub attachments: Vec<Attachment>,
}

impl View for RenderPassSpec {
    type V = RenderPassSpecView;

    open spec fn view(&self) -> RenderPassSpecView {
        RenderPassSpecView {
            subpasses: Seq::new(self.subpasses@.len(), |i: int| self.subpasses@[i]@),
            dependencies: self.dependencies@,
            attachments: self.attachments@,
        }
    }
}

impl RenderPassSpec {
    /// An exact copy of this description.
    pub fn duplicate(&self) -> (r: RenderPassSpec)
        ensures
            r@ == self@,
    {
        let mut subpasses: Vec<Subpass> = Vec::new();
        let n = self.subpasses.len();
        let mut i: usize = 0;
        while i < n
            invariant
                n == self.subpasses@.len(),
                0 <= i <= n,
                subpasses@.len() == i,
                forall|j: int| 0 <= j < i ==> (#[trigger] subpasses@[j])@ == self.subpasses@[j]@,
            decreases n - i,
        {
            subpasses.push(self.subpasses[i].duplicate());
            i += 1;
        }
        let r = RenderPassSpec {
            subpasses,
            dependencies: copy_vec(&self.dependencies),
            attachments: copy_vec(&self.attachments),
        };
        proof {
            assert(r@.subpasses =~= self@.subpasses);
            assert(r@ == self@);
        }
        r
    }
}

/// A cached render pass: its description together with the surface formats
/// it was built against.
#[derive(Debug)]
pub struct RenderPass {
    pub spec: RenderPassSpec,
    pub color_format: u32,
    pub depth_format: u32,
}

/// The abstract value of a [`RenderPass`].
pub struct RenderPassView {
    pub spec: RenderPassSpecView,
    pub color_format: u32,
    pub depth_format: u32,
}

impl View for RenderPass {
    type V = RenderPassView;

    open spec fn view(&self) -> RenderPassView {
        RenderPassView {
            spec: self.spec@,
            color_format: self.color_format,
            depth_format: self.depth_format,
        }
    }
}

impl RenderPass {
    pub fn new(spec: RenderPassSpec, color_format: u32, depth_format: u32) -> (r: RenderPass)
        ensures
            r.spec == spec,
            r.color_format == color_format,
            r.depth_format == depth_format,
    {
        RenderPass { spec, color_format, depth_format }
    }

    /// Returns self created again from its description but with updated
    /// formats. Called when the swapchain is recreated.
    pub fn recreate(&self, color_format: u32, depth_format: u32) -> (r: RenderPass)
        ensures
            r.spec@ == self.spec@,
            r.color_format == color_format,
            r.depth_format == depth_format,
    {
        RenderPass::new(self.spec.duplicate(), color_format, depth_format)
    }
}

} // verus!
