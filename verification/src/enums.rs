//! Enums representing and abstracting over the device's raw enums.
//!
//! Each variant corresponds to one raw value of the underlying graphics API;
//! `raw()` performs the conversion and its contract pins every case.

use vstd::prelude::*;

verus! {

/// A stage of the device pipeline, as a one-bit flag.
#[derive(Copy, Clone, Debug, PartialEq, Eq, Structural)]
pub enum PipelineStage {
    TopOfPipe,
    DrawIndirect,
    VertexInput,
    VertexShader,
    TessellationControlShader,
    TessellationEvaluationShader,
    GeometryShader,
    FragmentShader,
    EarlyFragmentTests,
    LateFragmentTests,
    ColorAttachmentOutput,
    ComputeShader,
    Transfer,
    BottomOfPipe,
    Host,
    AllGraphics,
    AllCommands,
}

impl PipelineStage {
    /// The raw one-bit flag value of this stage.
    pub open spec fn raw_value(self) -> u32 {
        match self {
            PipelineStage::TopOfPipe => 0x1,
            PipelineStage::DrawIndirect => 0x2,
            PipelineStage::VertexInput => 0x4,
            PipelineStage::VertexShader => 0x8,
            PipelineStage::TessellationControlShader => 0x10,
            PipelineStage::TessellationEvaluationShader => 0x20,
            PipelineStage::GeometryShader => 0x40,
            PipelineStage::FragmentShader => 0x80,
            PipelineStage::EarlyFragmentTests => 0x100,
            PipelineStage::LateFragmentTests => 0x200,
            PipelineStage::ColorAttachmentOutput => 0x400,
            PipelineStage::ComputeShader => 0x800,
            PipelineStage::Transfer => 0x1000,
            PipelineStage::BottomOfPipe => 0x2000,
            PipelineStage::Host => 0x4000,
            PipelineStage::AllGraphics => 0x8000,
            PipelineStage::AllCommands => 0x10000,
        }
    }

    pub fn raw(self) -> (r: u32)
        ensures
            r == self.raw_value(),
    {
        match self {
            PipelineStage::TopOfPipe => 0x1,
            PipelineStage::DrawIndirect => 0x2,
            PipelineStage::VertexInput => 0x4,
            PipelineStage::VertexShader => 0x8,
            PipelineStage::TessellationControlShader => 0x10,
            PipelineStage::TessellationEvaluationShader => 0x20,
            PipelineStage::GeometryShader => 0x40,
            PipelineStage::FragmentShader => 0x80,
            PipelineStage::EarlyFragmentTests => 0x100,
            PipelineStage::LateFragmentTests => 0x200,
            PipelineStage::ColorAttachmentOutput => 0x400,
            PipelineStage::ComputeShader => 0x800,
            PipelineStage::Transfer => 0x1000,
            PipelineStage::BottomOfPipe => 0x2000,
            PipelineStage::Host => 0x4000,
            PipelineStage::AllGraphics => 0x8000,
            PipelineStage::AllCommands => 0x10000,
        }
    }
}

/// A kind of memory access, as a one-bit flag.
#[derive(Copy, Clone, Debug, PartialEq, Eq, Structural)]
pub enum AccessFlags {
    NoAccess,
    IndirectCommandRead,
    IndexRead,
    VertexAttributeRead,
    UniformRead,
    InputAttachmentRead,
    ShaderRead,
    ShaderWrite,
    ColorAttachmentRead,
    ColorAttachmentWrite,
    DepthStencilAttachmentRead,
    DepthStencilAttachmentWrite,
    TransferRead,
    TransferWrite,
    HostRead,
    HostWrite,
    MemoryRead,
    MemoryWrite,
}

impl AccessFlags {
    /// The raw one-bit flag value of this access kind.
    pub open spec fn raw_value(self) -> u32 {
        match self {
            AccessFlags::NoAccess => 0x0,
            AccessFlags::IndirectCommandRead => 0x1,
            AccessFlags::IndexRead => 0x2,
            AccessFlags::VertexAttributeRead => 0x4,
            AccessFlags::UniformRead => 0x8,
            AccessFlags::InputAttachmentRead => 0x10,
            AccessFlags::ShaderRead => 0x20,
            AccessFlags::ShaderWrite => 0x40,
            AccessFlags::ColorAttachmentRead => 0x80,
            AccessFlags::ColorAttachmentWrite => 0x100,
            AccessFlags::DepthStencilAttachmentRead => 0x200,
            AccessFlags::DepthStencilAttachmentWrite => 0x400,
            AccessFlags::TransferRead => 0x800,
            AccessFlags::TransferWrite => 0x1000,
            AccessFlags::HostRead => 0x2000,
            AccessFlags::HostWrite => 0x4000,
            AccessFlags::MemoryRead => 0x8000,
            AccessFlags::MemoryWrite => 0x10000,
        }
    }

    pub fn raw(self) -> (r: u32)
        ensures
            r == self.raw_value(),
    {
        match self {
            AccessFlags::NoAccess => 0x0,
            AccessFlags::IndirectCommandRead => 0x1,
            AccessFlags::IndexRead => 0x2,
            AccessFlags::VertexAttributeRead => 0x4,
            AccessFlags::UniformRead => 0x8,
            AccessFlags::InputAttachmentRead => 0x10,
            AccessFlags::ShaderRead => 0x20,
            AccessFlags::ShaderWrite => 0x40,
            AccessFlags::ColorAttachmentRead => 0x80,
            AccessFlags::ColorAttachmentWrite => 0x100,
            AccessFlags::DepthStencilAttachmentRead => 0x200,
            AccessFlags::DepthStencilAttachmentWrite => 0x400,
            AccessFlags::TransferRead => 0x800,
            AccessFlags::TransferWrite => 0x1000,
            AccessFlags::HostRead => 0x2000,
            AccessFlags::HostWrite => 0x4000,
            AccessFlags::MemoryRead => 0x8000,
            AccessFlags::MemoryWrite => 0x10000,
        }
    }
}

/// Whether an attachment carries color or depth data.
#[derive(Copy, Clone, Debug, PartialEq, Eq, Structural)]
pub enum AttachmentType {
    Color,
    Depth,
}

/// What happens to an attachment's contents when a render pass begins.
#[derive(Copy, Clone, Debug, PartialEq, Eq, Structural)]
pub enum AttachmentLoadOp {
    Clear,
    Load,
    DontCare,
}

impl AttachmentLoadOp {
    /// The raw value of this load operation.
    pub open spec fn raw_value(self) -> u32 {
        match self {
            AttachmentLoadOp::Load => 0,
            AttachmentLoadOp::Clear => 1,
            AttachmentLoadOp::DontCare => 2,
        }
    }

    pub fn raw(self) -> (r: u32)
        ensures
            r == self.raw_value(),
    {
        match self {
            AttachmentLoadOp::Load => 0,
            AttachmentLoadOp::Clear => 1,
            AttachmentLoadOp::DontCare => 2,
        }
    }
}

/// What happens to an attachment's contents when a render pass ends.
#[derive(Copy, Clone, Debug, PartialEq, Eq, Structural)]
pub enum AttachmentStoreOp {
    Store,
    DontCare,
}

impl AttachmentStoreOp {
    /// The raw value of this store operation.
    pub open spec fn raw_value(self) -> u32 {
        match self {
            AttachmentStoreOp::Store => 0,
            AttachmentStoreOp::DontCare => 1,
        }
    }

    pub fn raw(self) -> (r: u32)
        ensures
            r == self.raw_value(),
    {
        match self {
            AttachmentStoreOp::Store => 0,
            AttachmentStoreOp::DontCare => 1,
        }
    }
}

/// The layout an image is kept in on the device.
#[derive(Copy, Clone, Debug, PartialEq, Eq, Structural)]
pub enum ImageLayout {
    Undefined,
    General,
    ColorAttachment,
    DepthStencilReadOnly,
    DepthStencilAttachment,
    ShaderReadOnly,
    TransferSrc,
    TransferDst,
    Preinitialized,
    PresentSrc,
}

impl ImageLayout {
    /// The raw value of this image layout.
    pub open spec fn raw_value(self) -> u32 {
        match self {
            ImageLayout::Undefined => 0,
            ImageLayout::General => 1,
            ImageLayout::ColorAttachment => 2,
            ImageLayout::DepthStencilAttachment => 3,
            ImageLayout::DepthStencilReadOnly => 4,
            ImageLayout::ShaderReadOnly => 5,
            ImageLayout::TransferSrc => 6,
            ImageLayout::TransferDst => 7,
            ImageLayout::Preinitialized => 8,
            ImageLayout::PresentSrc => 1000001002,
        }
    }

    pub fn raw(self) -> (r: u32)
        ensures
            r == self.raw_value(),
    {
        match self {
            ImageLayout::Undefined => 0,
            ImageLayout::General => 1,
            ImageLayout::ColorAttachment => 2,
            ImageLayout::DepthStencilAttachment => 3,
            ImageLayout::DepthStencilReadOnly => 4,
            ImageLayout::ShaderReadOnly => 5,
            ImageLayout::TransferSrc => 6,
            ImageLayout::TransferDst => 7,
            ImageLayout::Preinitialized => 8,
            ImageLayout::PresentSrc => 1000001002,
        }
    }
}

} // verus!
