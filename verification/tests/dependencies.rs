use sprocket::descriptors::DescriptorSetLayoutSpec;
use sprocket::error::Error;
use sprocket::graphics::Extent2D;
use sprocket::manager::ResourceManager;
use sprocket::material::MaterialSpec;
use sprocket::model::{Mesh, Model};
use sprocket::pipeline::PipelineSpec;
use sprocket::renderpass::RenderPassSpec;
use sprocket::swapchain::{SharingMode, SurfaceFormat, Swapchain, SwapchainConfig};
use sprocket::texture::Texture;

fn renderpass_spec() -> RenderPassSpec {
    RenderPassSpec { subpasses: vec![], dependencies: vec![], attachments: vec![] }
}

fn pipeline_spec(layout_count: usize) -> PipelineSpec {
    let mut layouts = Vec::new();
    for _ in 0..layout_count {
        layouts.push(DescriptorSetLayoutSpec { bindings: vec![] });
    }
    PipelineSpec {
        vertex_shader: String::from("shader.vert.spv"),
        fragment_shader: String::from("shader.frag.spv"),
        geometry_shader: String::new(),
        renderpass: String::from("default.json"),
        layouts,
    }
}

fn swapchain(format: u32, image_count: usize) -> Swapchain {
    let config = SwapchainConfig {
        format: SurfaceFormat { format, color_space: 0 },
        present_mode: 2,
        extent: Extent2D::new(800, 600),
        min_image_count: 3,
        sharing_mode: SharingMode::Exclusive,
    };
    Swapchain::new(&config, image_count)
}

fn full_manager() -> ResourceManager {
    let mut mgr = ResourceManager::new();
    mgr.register_renderpass_source(String::from("default.json"), renderpass_spec());
    mgr.register_pipeline_source(String::from("default.json"), pipeline_spec(2));
    mgr.register_material_source(
        String::from("default.json"),
        MaterialSpec { pipeline: String::from("default.json"), textures: vec![] },
    );
    mgr.register_model_source(
        String::from("suzanne.dae"),
        Model::new(vec![Mesh { vertex_count: 507, index_count: 2904 }]),
    );
    mgr.register_texture_source(String::from("grid.bmp"), Texture::new(64, 64, 50));
    mgr.set_swapchain(swapchain(50, 3));
    mgr
}

#[test]
fn material_chain_reference_counts() {
    let mut mgr = full_manager();
    let rp = mgr.load_renderpass("default.json").unwrap();
    let pl = mgr.load_pipeline("default.json").unwrap();
    let mat = mgr.load_material("default.json").unwrap();

    // Give back the handles this test took; only the dependency chain and
    // the cache itself hold references now.
    assert!(mgr.release_renderpass(rp));
    assert!(mgr.release_pipeline(pl));
    assert!(mgr.release_material(mat));

    let info = mgr.info();
    let rp_info = info.iter().find(|i| i.ty == "RenderPass").unwrap();
    let pl_info = info.iter().find(|i| i.ty == "Pipeline").unwrap();
    let mat_info = info.iter().find(|i| i.ty == "Material").unwrap();
    assert_eq!(info.iter().filter(|i| i.ty == "RenderPass").count(), 1);
    assert_eq!(info.iter().filter(|i| i.ty == "Pipeline").count(), 1);
    assert_eq!(info.iter().filter(|i| i.ty == "Material").count(), 1);
    assert!(rp_info.strong_refs >= 2, "render pass held by cache and pipeline");
    assert!(pl_info.strong_refs >= 2, "pipeline held by cache and material");
    assert_eq!(mat_info.strong_refs, 1, "only the cache holds the material");
}

#[test]
fn recreation_rebuilds_in_dependency_order() {
    let mut mgr = full_manager();
    let _pl = mgr.load_pipeline("default.json").unwrap();
    let old_rp_id = {
        let i = mgr.renderpasses.position("default.json").unwrap();
        mgr.renderpasses.entry_ref(i).id
    };

    // A new surface: different format, new swapchain.
    mgr.set_swapchain(swapchain(44, 3));
    mgr.recreate().unwrap();

    let new_rp = {
        let i = mgr.renderpasses.position("default.json").unwrap();
        (mgr.renderpasses.entry_ref(i).id, mgr.renderpasses.entry_ref(i).resource.color_format)
    };
    let pl_entry = {
        let i = mgr.pipelines.position("default.json").unwrap();
        mgr.pipelines.entry_ref(i).resource.renderpass_handle
    };
    assert_ne!(new_rp.0, old_rp_id, "the render pass must be a new object");
    assert_eq!(pl_entry, new_rp.0, "the pipeline must hold the rebuilt render pass");
    assert_eq!(new_rp.1, 44, "the rebuilt render pass uses the new surface format");
}

#[test]
fn material_needs_per_material_layout() {
    let mut mgr = full_manager();
    mgr.register_pipeline_source(String::from("default.json"), pipeline_spec(1));
    match mgr.load_material("default.json") {
        Err(Error::MissingDescriptorSet(set)) => assert_eq!(set, 1),
        other => panic!("expected a missing-descriptor-set error, got {:?}", other),
    }
    assert_eq!(mgr.materials.len(), 0);
}

#[test]
fn material_with_textures_loads_them() {
    let mut mgr = full_manager();
    mgr.register_material_source(
        String::from("textured.json"),
        MaterialSpec {
            pipeline: String::from("default.json"),
            textures: vec![String::from("grid.bmp"), String::from("grid.bmp")],
        },
    );
    let _mat = mgr.load_material("textured.json").unwrap();
    assert!(mgr.textures.contains("grid.bmp"));
    let info = mgr.info();
    let tex_info = info.iter().find(|i| i.ty == "Texture").unwrap();
    // Cache plus two handles held by the material (one per listed slot).
    assert_eq!(tex_info.strong_refs, 3);
}

#[test]
fn destroying_material_frees_chain_eventually() {
    let mut mgr = full_manager();
    let mat = mgr.load_material("default.json").unwrap();
    mgr.release_material(mat);

    // The material is evicted first; once its grace period runs out it
    // gives back its pipeline handle, and so on down the chain.
    for _ in 0..12 {
        mgr.collect_garbage(1);
    }
    assert_eq!(mgr.materials.len(), 0);
    assert_eq!(mgr.pipelines.len(), 0);
    assert_eq!(mgr.renderpasses.len(), 0);
    assert_eq!(mgr.materials.garbage_len(), 0);
    assert_eq!(mgr.pipelines.garbage_len(), 0);
    assert_eq!(mgr.renderpasses.garbage_len(), 0);
}

#[test]
fn model_load_keeps_meshes() {
    let mut mgr = full_manager();
    let _m = mgr.load_model("suzanne.dae").unwrap();
    let i = mgr.models.position("suzanne.dae").unwrap();
    let model = &mgr.models.entry_ref(i).resource;
    let mesh = model.get_mesh_index(0).unwrap();
    assert_eq!(mesh.index_count(), 2904);
    assert_eq!(mesh.vertex_count(), 507);
    assert!(model.get_mesh_index(1).is_none());
}

#[test]
fn pipeline_without_renderpass_source_fails() {
    let mut mgr = ResourceManager::new();
    mgr.register_pipeline_source(String::from("default.json"), pipeline_spec(2));
    mgr.set_swapchain(swapchain(50, 3));
    // The pipeline's render pass has no description registered: the error
    // names the dependency that was missing.
    match mgr.load_pipeline("default.json") {
        Err(Error::MissingResource(p)) => assert_eq!(p, "default.json"),
        other => panic!("expected a missing-resource error, got {:?}", other),
    }
    assert_eq!(mgr.pipelines.len(), 0);
    assert_eq!(mgr.renderpasses.len(), 0);
}

#[test]
fn registering_again_replaces_a_description() {
    let mut mgr = ResourceManager::new();
    mgr.register_texture_source(String::from("grid.bmp"), Texture::new(16, 16, 50));
    mgr.register_texture_source(String::from("grid.bmp"), Texture::new(128, 128, 44));
    let h = mgr.load_texture("grid.bmp").unwrap();
    let _ = h;
    let i = mgr.textures.position("grid.bmp").unwrap();
    assert_eq!(mgr.textures.entry_ref(i).resource, Texture::new(128, 128, 44));
}

#[test]
fn pipeline_loads_its_renderpass_and_keeps_it() {
    let mut mgr = full_manager();
    let pl = mgr.load_pipeline("default.json").unwrap();
    // Loading the pipeline pulled in its render pass as a dependency.
    assert!(mgr.renderpasses.contains("default.json"));
    let i = mgr.pipelines.position("default.json").unwrap();
    let rp_handle = mgr.pipelines.entry_ref(i).resource.renderpass_handle;
    let j = mgr.renderpasses.position("default.json").unwrap();
    assert_eq!(rp_handle, mgr.renderpasses.entry_ref(j).id);
    // The renderer core reads the negotiated formats off the cached pass.
    assert_eq!(mgr.renderpasses.entry_ref(j).resource.color_format, 50);
    assert_eq!(mgr.renderpasses.entry_ref(j).resource.depth_format, 126);
    let _ = pl;
}
