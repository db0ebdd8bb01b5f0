use bevy_easy_portals::{
    get_viewport_size, plan_image_resize, plan_portal_camera_setup, CameraSizing, Extent3d,
    PhysicalSize, RenderTargetSize, ResizeAction, SetupError, PORTAL_CAMERA_ORDER,
};

fn size(width: u32, height: u32) -> PhysicalSize {
    PhysicalSize { width, height }
}

fn extent(width: u32, height: u32) -> Extent3d {
    Extent3d { width, height, depth_or_array_layers: 1 }
}

fn window_camera(width: u32, height: u32) -> CameraSizing {
    CameraSizing { viewport: None, target: RenderTargetSize::Window(Some(size(width, height))) }
}

#[test]
fn viewport_takes_precedence_over_target() {
    let camera = CameraSizing {
        viewport: Some(size(320, 200)),
        target: RenderTargetSize::Window(Some(size(1280, 720))),
    };
    assert_eq!(get_viewport_size(&camera), Some(extent(320, 200)));
    let camera = CameraSizing { viewport: Some(size(10, 20)), target: RenderTargetSize::Image(None) };
    assert_eq!(get_viewport_size(&camera), Some(extent(10, 20)));
}

#[test]
fn each_target_kind_gives_its_size() {
    assert_eq!(get_viewport_size(&window_camera(1280, 720)), Some(extent(1280, 720)));
    let image = CameraSizing { viewport: None, target: RenderTargetSize::Image(Some(size(64, 32))) };
    assert_eq!(get_viewport_size(&image), Some(extent(64, 32)));
    let view = CameraSizing { viewport: None, target: RenderTargetSize::TextureView(Some(size(5, 6))) };
    assert_eq!(get_viewport_size(&view), Some(extent(5, 6)));
    let none = CameraSizing { viewport: None, target: RenderTargetSize::NoTarget(size(8, 9)) };
    assert_eq!(get_viewport_size(&none), Some(extent(8, 9)));
}

#[test]
fn missing_window_gives_no_size() {
    let camera = CameraSizing { viewport: None, target: RenderTargetSize::Window(None) };
    assert_eq!(get_viewport_size(&camera), None);
    assert_eq!(plan_portal_camera_setup(Some(camera), true).outcome, Err(SetupError::NoViewportSize));
    assert_eq!(plan_image_resize(Some(camera), true), ResizeAction::RemoveOnly);
    let with_viewport = CameraSizing { viewport: Some(size(4, 3)), target: RenderTargetSize::Window(None) };
    assert_eq!(get_viewport_size(&with_viewport), Some(extent(4, 3)));
}

#[test]
fn missing_image_or_view_gives_no_size() {
    let image = CameraSizing { viewport: None, target: RenderTargetSize::Image(None) };
    assert_eq!(get_viewport_size(&image), None);
    let view = CameraSizing { viewport: None, target: RenderTargetSize::TextureView(None) };
    assert_eq!(get_viewport_size(&view), None);
}

#[test]
fn setup_without_primary_camera_fails_first() {
    let plan = plan_portal_camera_setup(None, true);
    assert_eq!(plan.image, None);
    assert_eq!(plan.outcome, Err(SetupError::MissingPrimaryCamera));
    let plan = plan_portal_camera_setup(None, false);
    assert_eq!(plan.outcome, Err(SetupError::MissingPrimaryCamera));
}

#[test]
fn setup_without_viewport_size_creates_no_image() {
    let camera = CameraSizing { viewport: None, target: RenderTargetSize::Image(None) };
    let plan = plan_portal_camera_setup(Some(camera), true);
    assert_eq!(plan.image, None);
    assert_eq!(plan.outcome, Err(SetupError::NoViewportSize));
}

#[test]
fn setup_without_target_keeps_the_created_image() {
    let plan = plan_portal_camera_setup(Some(window_camera(800, 600)), false);
    assert_eq!(plan.image, Some(extent(800, 600)));
    assert_eq!(plan.outcome, Err(SetupError::MissingTargetTransform));
}

#[test]
fn setup_spawns_camera_rendering_to_view_sized_image() {
    let plan = plan_portal_camera_setup(Some(window_camera(800, 600)), true);
    assert_eq!(plan.image, Some(extent(800, 600)));
    assert_eq!(plan.outcome, Ok(()));
    assert_eq!(PORTAL_CAMERA_ORDER, -1);
}

#[test]
fn resize_skips_when_a_camera_is_missing() {
    assert_eq!(plan_image_resize(None, true), ResizeAction::Skip);
    assert_eq!(plan_image_resize(Some(window_camera(1, 1)), false), ResizeAction::Skip);
    assert_eq!(plan_image_resize(None, false), ResizeAction::Skip);
}

#[test]
fn resize_replaces_with_view_sized_image() {
    assert_eq!(
        plan_image_resize(Some(window_camera(1920, 1080)), true),
        ResizeAction::Replace(extent(1920, 1080))
    );
}

#[test]
fn resize_without_size_only_removes_old_image() {
    let camera = CameraSizing { viewport: None, target: RenderTargetSize::TextureView(None) };
    assert_eq!(plan_image_resize(Some(camera), true), ResizeAction::RemoveOnly);
}

#[test]
fn resize_and_setup_agree_on_image_size() {
    let camera = CameraSizing {
        viewport: Some(size(100, 50)),
        target: RenderTargetSize::Window(Some(size(1000, 500))),
    };
    let setup = plan_portal_camera_setup(Some(camera), true);
    match plan_image_resize(Some(camera), true) {
        ResizeAction::Replace(new_size) => assert_eq!(setup.image, Some(new_size)),
        other => panic!("unexpected {:?}", other),
    }
}
