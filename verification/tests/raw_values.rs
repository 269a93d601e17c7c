use sprocket::descriptors::{
    DescriptorSetLayoutBinding, DescriptorSetLayoutSpec, DescriptorType, ShaderStage,
};
use sprocket::enums::{
    AccessFlags, AttachmentLoadOp, AttachmentStoreOp, ImageLayout, PipelineStage,
};
use sprocket::error::Error;
use sprocket::renderpass::{Attachment, ImageFormat, SubpassIndex};

#[test]
fn pipeline_stage_bits() {
    assert_eq!(PipelineStage::TopOfPipe.raw(), 0x1);
    assert_eq!(PipelineStage::ColorAttachmentOutput.raw(), 0x400);
    assert_eq!(PipelineStage::AllCommands.raw(), 0x10000);
}

#[test]
fn access_flag_bits() {
    assert_eq!(AccessFlags::NoAccess.raw(), 0);
    assert_eq!(AccessFlags::ColorAttachmentWrite.raw(), 0x100);
    assert_eq!(AccessFlags::MemoryWrite.raw(), 0x10000);
}

#[test]
fn attachment_op_values() {
    assert_eq!(AttachmentLoadOp::Load.raw(), 0);
    assert_eq!(AttachmentLoadOp::Clear.raw(), 1);
    assert_eq!(AttachmentLoadOp::DontCare.raw(), 2);
    assert_eq!(AttachmentStoreOp::Store.raw(), 0);
    assert_eq!(AttachmentStoreOp::DontCare.raw(), 1);
}

#[test]
fn image_layout_values() {
    assert_eq!(ImageLayout::Undefined.raw(), 0);
    assert_eq!(ImageLayout::ColorAttachment.raw(), 2);
    assert_eq!(ImageLayout::PresentSrc.raw(), 1000001002);
}

#[test]
fn subpass_index_values() {
    assert_eq!(SubpassIndex::External.raw(), u32::MAX);
    assert_eq!(SubpassIndex::Internal(3).raw(), 3);
}

#[test]
fn descriptor_type_values() {
    assert_eq!(DescriptorType::CombinedImageSampler.raw(), 1);
    assert_eq!(DescriptorType::UniformBuffer.raw(), 6);
}

#[test]
fn shader_stage_mask_folds() {
    let binding = DescriptorSetLayoutBinding {
        slot: 0,
        ty: DescriptorType::UniformBuffer,
        count: 1,
        stages: vec![ShaderStage::Vertex, ShaderStage::Fragment],
    };
    assert_eq!(binding.stage_flags(), 0x1 | 0x10);
    let empty = DescriptorSetLayoutBinding {
        slot: 0,
        ty: DescriptorType::UniformBuffer,
        count: 1,
        stages: vec![],
    };
    assert_eq!(empty.stage_flags(), 0);
}

#[test]
fn attachment_format_resolution() {
    let mut a = Attachment {
        store_op: AttachmentStoreOp::Store,
        load_op: AttachmentLoadOp::Clear,
        initial_layout: ImageLayout::Undefined,
        final_layout: ImageLayout::PresentSrc,
        layout: ImageLayout::ColorAttachment,
        sample_count: 1,
        format: ImageFormat::Color,
    };
    assert_eq!(a.resolve_format(50, 126), 50);
    a.format = ImageFormat::Depth;
    assert_eq!(a.resolve_format(50, 126), 126);
    a.format = ImageFormat::Undefined;
    assert_eq!(a.resolve_format(50, 126), 0);
}

#[test]
fn descriptor_write_validation() {
    let layout = DescriptorSetLayoutSpec {
        bindings: vec![
            DescriptorSetLayoutBinding {
                slot: 0,
                ty: DescriptorType::UniformBuffer,
                count: 1,
                stages: vec![ShaderStage::Vertex],
            },
            DescriptorSetLayoutBinding {
                slot: 1,
                ty: DescriptorType::CombinedImageSampler,
                count: 1,
                stages: vec![ShaderStage::Fragment],
            },
        ],
    };
    // Three sets: three buffers, three textures, three samplers.
    assert!(layout.validate_supply(3, 3, 3, 3).is_ok());
    match layout.validate_supply(3, 2, 3, 3) {
        Err(Error::MismatchedBinding(expected, supplied)) => {
            assert_eq!(expected, 3);
            assert_eq!(supplied, 2);
        },
        other => panic!("expected a mismatched-binding error, got {:?}", other),
    }
    match layout.validate_supply(2, 2, 2, 1) {
        Err(Error::MismatchedBinding(expected, supplied)) => {
            assert_eq!(expected, 2);
            assert_eq!(supplied, 1);
        },
        other => panic!("expected a mismatched-binding error, got {:?}", other),
    }
    assert_eq!(layout.bindings_of_type(DescriptorType::UniformBuffer), 1);
}
