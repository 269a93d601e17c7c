use sprocket::descriptors::DescriptorSetLayoutSpec;
use sprocket::graphics::Extent2D;
use sprocket::manager::ResourceManager;
use sprocket::material::MaterialSpec;
use sprocket::model::{Mesh, Model};
use sprocket::pipeline::PipelineSpec;
use sprocket::renderer::{AcquireOutcome, FramePlan, PresentOutcome, Renderer};
use sprocket::renderpass::RenderPassSpec;
use sprocket::swapchain::{SharingMode, SurfaceFormat, Swapchain, SwapchainConfig};

fn swapchain(image_count: usize) -> Swapchain {
    let config = SwapchainConfig {
        format: SurfaceFormat { format: 50, color_space: 0 },
        present_mode: 2,
        extent: Extent2D::new(800, 600),
        min_image_count: 3,
        sharing_mode: SharingMode::Exclusive,
    };
    Swapchain::new(&config, image_count)
}

fn full_manager() -> ResourceManager {
    let mut mgr = ResourceManager::new();
    mgr.register_renderpass_source(
        String::from("default.json"),
        RenderPassSpec { subpasses: vec![], dependencies: vec![], attachments: vec![] },
    );
    mgr.register_pipeline_source(
        String::from("default.json"),
        PipelineSpec {
            vertex_shader: String::from("shader.vert.spv"),
            fragment_shader: String::from("shader.frag.spv"),
            geometry_shader: String::new(),
            renderpass: String::from("default.json"),
            layouts: vec![
                DescriptorSetLayoutSpec { bindings: vec![] },
                DescriptorSetLayoutSpec { bindings: vec![] },
            ],
        },
    );
    mgr.register_material_source(
        String::from("default.json"),
        MaterialSpec { pipeline: String::from("default.json"), textures: vec![] },
    );
    mgr.register_model_source(
        String::from("suzanne.dae"),
        Model::new(vec![Mesh { vertex_count: 507, index_count: 2904 }]),
    );
    mgr
}

fn renderer(image_count: usize) -> (ResourceManager, Renderer) {
    let mut mgr = full_manager();
    let r = Renderer::new(
        &mut mgr,
        swapchain(image_count),
        "default.json",
        "default.json",
        "suzanne.dae",
    )
    .unwrap();
    (mgr, r)
}

/// Drives one clean frame against the given image index.
fn draw_one(r: &mut Renderer, image: usize) {
    let _slot = r.begin_frame();
    let plan = r.plan_frame(&AcquireOutcome::Acquired { image_index: image, suboptimal: false });
    match plan {
        FramePlan::Render { image_index, wait_slot: _ } => {
            r.mark_submitted(image_index);
            let recreate = r.complete_frame(&PresentOutcome::Presented { suboptimal: false });
            assert!(!recreate);
        },
        other => panic!("expected a render plan, got {:?}", other),
    }
}

#[test]
fn renderer_sizes_per_image_data() {
    let (mgr, r) = renderer(4);
    assert_eq!(r.commandbuffer_count(), 4);
    for i in 0..4 {
        assert_eq!(r.image_claim(i), None);
    }
    assert_eq!(r.fence_pending(0), None);
    assert_eq!(r.fence_pending(1), None);
    assert_eq!(mgr.get_swapchain().unwrap().image_count(), 4);
}

#[test]
fn third_frame_waits_on_slot_zero() {
    let (_mgr, mut r) = renderer(3);
    draw_one(&mut r, 0);
    draw_one(&mut r, 1);
    assert_eq!(r.frame_count(), 2);
    assert_eq!(r.current_frame(), 0);
    // The fence of slot 0 still guards the submission of frame 0: the third
    // frame must wait on it, keeping at most two frames unacknowledged.
    assert_eq!(r.fence_pending(0), Some(0));
    let slot = r.begin_frame();
    assert_eq!(slot, 0);
}

#[test]
fn reused_image_waits_on_prior_claim() {
    let (_mgr, mut r) = renderer(3);
    // Frame 0, slot 0, claims image 0.
    draw_one(&mut r, 0);
    assert_eq!(r.image_claim(0), Some(0));
    // Frame 1, slot 1, acquires the same image: the plan must wait on the
    // fence of slot 0 before re-recording image 0.
    let _slot = r.begin_frame();
    let plan = r.plan_frame(&AcquireOutcome::Acquired { image_index: 0, suboptimal: false });
    assert_eq!(plan, FramePlan::Render { image_index: 0, wait_slot: Some(0) });
}

#[test]
fn out_of_date_acquire_recreates_and_skips() {
    let (_mgr, mut r) = renderer(3);
    let _slot = r.begin_frame();
    let plan = r.plan_frame(&AcquireOutcome::OutOfDate);
    assert_eq!(plan, FramePlan::RecreateSwapchain);
    // Nothing was submitted and the frame did not advance.
    assert_eq!(r.frame_count(), 0);
    assert_eq!(r.fence_pending(0), None);
    assert_eq!(r.fence_pending(1), None);
}

#[test]
fn suboptimal_acquire_recreates() {
    let (_mgr, mut r) = renderer(3);
    let _slot = r.begin_frame();
    let plan = r.plan_frame(&AcquireOutcome::Acquired { image_index: 1, suboptimal: true });
    assert_eq!(plan, FramePlan::RecreateSwapchain);
}

#[test]
fn device_error_drops_the_frame() {
    let (_mgr, mut r) = renderer(3);
    let _slot = r.begin_frame();
    let plan = r.plan_frame(&AcquireOutcome::DeviceError);
    assert_eq!(plan, FramePlan::Abandon);
    assert_eq!(r.frame_count(), 0);
}

#[test]
fn out_of_date_present_does_not_advance() {
    let (_mgr, mut r) = renderer(3);
    let _slot = r.begin_frame();
    let plan = r.plan_frame(&AcquireOutcome::Acquired { image_index: 2, suboptimal: false });
    match plan {
        FramePlan::Render { image_index, .. } => {
            r.mark_submitted(image_index);
            let recreate = r.complete_frame(&PresentOutcome::OutOfDate);
            assert!(recreate);
            assert_eq!(r.frame_count(), 0);
            assert_eq!(r.current_frame(), 0);
        },
        other => panic!("expected a render plan, got {:?}", other),
    }
}

#[test]
fn recreate_resizes_image_claims() {
    let (mut mgr, mut r) = renderer(3);
    draw_one(&mut r, 0);
    draw_one(&mut r, 1);
    let frames_before = r.frame_count();
    // The swapchain grows to five images; the claim table follows and is
    // cleared, while the frame ring keeps its position.
    r = r
        .recreate(&mut mgr, swapchain(5), "default.json", "default.json", "suzanne.dae")
        .unwrap();
    assert_eq!(r.frame_count(), frames_before);
    for i in 0..5 {
        assert_eq!(r.image_claim(i), None);
    }
    // The renderer's data handles point at live resources.
    assert!(mgr.materials.len() >= 1);
    draw_one(&mut r, 4);
    assert_eq!(r.frame_count(), frames_before + 1);
}
