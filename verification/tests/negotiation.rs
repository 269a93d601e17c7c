use sprocket::graphics::Extent2D;
use sprocket::swapchain::{
    SharingMode, SurfaceCapabilities, SurfaceFormat, Swapchain, QueueFamilies,
    COLOR_SPACE_SRGB_NONLINEAR, FORMAT_B8G8R8A8_SRGB, FORMAT_D32_SFLOAT, PRESENT_MODE_FIFO,
    PRESENT_MODE_IMMEDIATE, PRESENT_MODE_MAILBOX,
};

fn caps(current_w: u32) -> SurfaceCapabilities {
    SurfaceCapabilities {
        min_image_count: 2,
        max_image_count: 8,
        current_extent: Extent2D::new(current_w, 600),
        min_image_extent: Extent2D::new(200, 100),
        max_image_extent: Extent2D::new(1920, 1080),
    }
}

#[test]
fn format_prefers_srgb_8bit() {
    let formats = vec![
        SurfaceFormat { format: 44, color_space: 0 },
        SurfaceFormat { format: FORMAT_B8G8R8A8_SRGB, color_space: COLOR_SPACE_SRGB_NONLINEAR },
        SurfaceFormat { format: 97, color_space: 1 },
    ];
    let picked = Swapchain::pick_format(&formats);
    assert_eq!(picked.format, FORMAT_B8G8R8A8_SRGB);
    assert_eq!(picked.color_space, COLOR_SPACE_SRGB_NONLINEAR);
}

#[test]
fn format_falls_back_to_first_offered() {
    let formats = vec![
        SurfaceFormat { format: 44, color_space: 0 },
        SurfaceFormat { format: 97, color_space: 1 },
    ];
    let picked = Swapchain::pick_format(&formats);
    assert_eq!(picked.format, 44);
}

#[test]
fn present_mode_prefers_mailbox() {
    let modes = vec![PRESENT_MODE_FIFO, PRESENT_MODE_MAILBOX, PRESENT_MODE_IMMEDIATE];
    assert_eq!(Swapchain::pick_present_mode(&modes), PRESENT_MODE_MAILBOX);
}

#[test]
fn present_mode_falls_back_to_fifo() {
    let modes = vec![PRESENT_MODE_IMMEDIATE];
    assert_eq!(Swapchain::pick_present_mode(&modes), PRESENT_MODE_FIFO);
    assert_eq!(Swapchain::pick_present_mode(&vec![]), PRESENT_MODE_FIFO);
}

#[test]
fn extent_follows_surface_when_fixed() {
    let e = Swapchain::pick_extent(&caps(800), Extent2D::new(5000, 5000));
    assert_eq!(e.width, 800);
    assert_eq!(e.height, 600);
}

#[test]
fn extent_clamps_window_request_when_free() {
    let e = Swapchain::pick_extent(&caps(u32::MAX), Extent2D::new(5000, 50));
    assert_eq!(e.width, 1920);
    assert_eq!(e.height, 100);
    let e2 = Swapchain::pick_extent(&caps(u32::MAX), Extent2D::new(640, 480));
    assert_eq!(e2.width, 640);
    assert_eq!(e2.height, 480);
}

#[test]
fn image_count_clamps_to_surface_limits() {
    let mut c = caps(800);
    assert_eq!(Swapchain::pick_image_count(&c), 3);
    c.min_image_count = 4;
    assert_eq!(Swapchain::pick_image_count(&c), 4);
    c.min_image_count = 1;
    c.max_image_count = 2;
    assert_eq!(Swapchain::pick_image_count(&c), 2);
    // A reported maximum of zero means no maximum.
    c.max_image_count = 0;
    assert_eq!(Swapchain::pick_image_count(&c), 3);
}

#[test]
fn sharing_is_concurrent_only_across_families() {
    let same = QueueFamilies { graphics: Some(0), present: Some(0), compute: None, present_support: true };
    let split = QueueFamilies { graphics: Some(0), present: Some(2), compute: None, present_support: true };
    assert_eq!(Swapchain::pick_sharing_mode(&same), SharingMode::Exclusive);
    assert_eq!(Swapchain::pick_sharing_mode(&split), SharingMode::Concurrent);
}

#[test]
fn negotiation_combines_all_policies() {
    let formats = vec![
        SurfaceFormat { format: 44, color_space: 0 },
        SurfaceFormat { format: FORMAT_B8G8R8A8_SRGB, color_space: COLOR_SPACE_SRGB_NONLINEAR },
    ];
    let modes = vec![PRESENT_MODE_MAILBOX, PRESENT_MODE_FIFO];
    let qf = QueueFamilies { graphics: Some(0), present: Some(1), compute: None, present_support: true };
    let config = Swapchain::negotiate(&caps(800), &formats, &modes, Extent2D::new(640, 480), &qf);
    assert_eq!(config.format.format, FORMAT_B8G8R8A8_SRGB);
    assert_eq!(config.present_mode, PRESENT_MODE_MAILBOX);
    assert_eq!(config.extent.width, 800);
    assert_eq!(config.min_image_count, 3);
    assert_eq!(config.sharing_mode, SharingMode::Concurrent);
}

#[test]
fn swapchain_model_matches_configuration() {
    let config = sprocket::swapchain::SwapchainConfig {
        format: SurfaceFormat { format: FORMAT_B8G8R8A8_SRGB, color_space: 0 },
        present_mode: PRESENT_MODE_FIFO,
        extent: Extent2D::new(320, 240),
        min_image_count: 3,
        sharing_mode: SharingMode::Exclusive,
    };
    let sc = Swapchain::new(&config, 4);
    assert_eq!(sc.image_count(), 4);
    assert_eq!(sc.format(), FORMAT_B8G8R8A8_SRGB);
    assert_eq!(sc.depth_format(), FORMAT_D32_SFLOAT);
    assert_eq!(sc.extent().width, 320);
    assert_eq!(sc.image(2).width, 320);
    assert_eq!(sc.depth_image().format, FORMAT_D32_SFLOAT);
}
