use labwc::rendering::compositor::RenderLayer;
use labwc::rendering::swapchain::{OutputSwapchain, PresentMode, SwapchainConfig};
use labwc::rendering::sync::{FrameSync, MultiOutputSync};

#[test]
fn test_layer_ordering() {
    assert!(RenderLayer::Background < RenderLayer::Normal);
    assert!(RenderLayer::Top < RenderLayer::Overlay);
}

#[test]
fn test_swapchain_creation() {
    let config = SwapchainConfig {
        output_name: "test".into(),
        width: 1920,
        height: 1080,
        refresh_rate: 144,
        present_mode: PresentMode::Mailbox,
        image_count: 3,
        gsync_compatible: true,
    };
    let sc = OutputSwapchain::create(&config);
    assert_eq!(sc.images.len(), 3);
    assert_eq!(sc.present_mode, PresentMode::Mailbox);
}

#[test]
fn test_frame_cycle() {
    let config = SwapchainConfig {
        output_name: "test".into(),
        width: 800,
        height: 600,
        refresh_rate: 60,
        present_mode: PresentMode::Fifo,
        image_count: 2,
        gsync_compatible: false,
    };
    let mut sc = OutputSwapchain::create(&config);
    assert!(!sc.frame_in_flight);
    sc.begin_frame();
    assert!(sc.frame_in_flight);
    sc.end_frame();
    sc.present();
    assert!(!sc.frame_in_flight);
    assert_eq!(sc.frames_presented, 1);
}

#[test]
fn test_drop_frame() {
    let config = SwapchainConfig {
        output_name: "test".into(),
        width: 800,
        height: 600,
        refresh_rate: 60,
        present_mode: PresentMode::Fifo,
        image_count: 2,
        gsync_compatible: false,
    };
    let mut sc = OutputSwapchain::create(&config);
    sc.begin_frame();
    sc.begin_frame();
    assert_eq!(sc.frames_dropped, 1);
}

#[test]
fn test_resize() {
    let config = SwapchainConfig {
        output_name: "test".into(),
        width: 1920,
        height: 1080,
        refresh_rate: 60,
        present_mode: PresentMode::Fifo,
        image_count: 2,
        gsync_compatible: false,
    };
    let mut sc = OutputSwapchain::create(&config);
    sc.resize(3840, 2160);
    assert!(sc.needs_rebuild);
    assert_eq!(sc.config.width, 3840);
    assert_eq!(sc.config.height, 2160);
}

#[test]
fn test_frame_sync() {
    let mut s = FrameSync::new();
    s.submit(1);
    assert_eq!(s.pending_count(), 1);
    s.complete(1);
    assert_eq!(s.pending_count(), 0);
}

#[test]
fn test_multi_output() {
    let mut mos = MultiOutputSync::new(2);
    mos.submit(0, 1);
    mos.submit(1, 2);
    assert!(!mos.all_complete());
    mos.complete(0, 1);
    mos.complete(1, 2);
    assert!(mos.all_complete());
}

#[test]
fn test_gc() {
    let mut s = FrameSync::new();
    s.submit(1);
    s.submit(100);
    s.gc();
    assert_eq!(s.pending_count(), 1);
}

use labwc::geometry::Rect;
use labwc::rendering::compositor::CompositorPass;

#[test]
fn test_compositor_pass() {
    let mut pass: CompositorPass<[f32; 4], u64> = CompositorPass::new(0, 1920, 1080, [0.0, 0.0, 0.0, 1.0]);
    pass.begin();
    pass.add_rect(RenderLayer::Normal, Rect::new(100, 100, 200, 200), [0.5; 4]);
    assert!(pass.needs_render);
    assert_eq!(pass.total_draws(), 1);
}

#[test]
fn compositor_pass_groups_and_sorts_layers() {
    let mut pass: CompositorPass<u8, u64> = CompositorPass::new(1, 800, 600, 0);
    pass.add_rect(RenderLayer::Overlay, Rect::new(0, 0, 1, 1), 1);
    pass.add_texture(RenderLayer::Background, 42);
    pass.add_rect(RenderLayer::Overlay, Rect::new(1, 1, 1, 1), 2);
    pass.add_rect(RenderLayer::Normal, Rect::new(2, 2, 1, 1), 3);
    assert_eq!(pass.layers.len(), 3);
    assert_eq!(pass.layers[0].rects.len(), 2);
    assert_eq!(pass.total_draws(), 4);
    pass.sort_layers();
    let order: Vec<RenderLayer> = pass.layers.iter().map(|l| l.layer).collect();
    assert_eq!(order, vec![RenderLayer::Background, RenderLayer::Normal, RenderLayer::Overlay]);
    assert_eq!(pass.layers[2].rects[1].1, 2);
    pass.begin();
    assert_eq!(pass.total_draws(), 0);
    assert!(!pass.needs_render);
}
