use vstd::prelude::*;

verus! {

/// The size of a texture: width and height in physical pixels, and the number of layers.
#[derive(Clone, Copy, Debug, PartialEq, Eq, Structural)]
pub struct Extent3d {
    pub width: u32,
    pub height: u32,
    pub depth_or_array_layers: u32,
}

/// A width and a height in physical pixels.
#[derive(Clone, Copy, Debug, PartialEq, Eq, Structural)]
pub struct PhysicalSize {
    pub width: u32,
    pub height: u32,
}

/// What a camera renders to, with the physical size that its kind of target can give.
///
/// A window, an image or a manual texture view has a physical size only while the window,
/// the asset or the view exists; a headless target carries its size with it.
#[derive(Clone, Copy, Debug, PartialEq, Eq, Structural)]
pub enum RenderTargetSize {
    /// A window (the primary window or another one), with its physical size when the
    /// window is found.
    Window(Option<PhysicalSize>),
    /// An image asset, with its size when the asset is present.
    Image(Option<PhysicalSize>),
    /// A manual texture view, with its size when the view is present.
    TextureView(Option<PhysicalSize>),
    /// No target, rendering at the given size.
    NoTarget(PhysicalSize),
}

/// What decides the size of a camera's view: its viewport, if it has one, and its target.
#[derive(Clone, Copy, Debug, PartialEq, Eq, Structural)]
pub struct CameraSizing {
    /// The physical size of the camera's viewport, if the camera has a viewport.
    pub viewport: Option<PhysicalSize>,
    /// The camera's render target.
    pub target: RenderTargetSize,
}

/// The extent of a flat texture of the given width and height.
pub open spec fn flat_extent(size: PhysicalSize) -> Extent3d {
    Extent3d { width: size.width, height: size.height, depth_or_array_layers: 1 }
}

/// The physical size of what the target shows, if it can be told.
pub open spec fn target_size(target: RenderTargetSize) -> Option<PhysicalSize> {
    match target {
        RenderTargetSize::Window(size) => size,
        RenderTargetSize::Image(size) => size,
        RenderTargetSize::TextureView(size) => size,
        RenderTargetSize::NoTarget(size) => Some(size),
    }
}

/// The size of a camera's view: that of its viewport when it has one, else that of its
/// target; `None` when no size can be told.
pub open spec fn viewport_extent(camera: CameraSizing) -> Option<Extent3d> {
    match camera.viewport {
        Some(size) => Some(flat_extent(size)),
        None => match target_size(camera.target) {
            Some(size) => Some(flat_extent(size)),
            None => None,
        },
    }
}

/// Retrieves the size of the viewport of `camera`, as a flat texture extent.
///
/// Returns `None` if no size could be obtained.
pub fn get_viewport_size(camera: &CameraSizing) -> (extent: Option<Extent3d>)
    ensures
        extent == viewport_extent(*camera),
{
    let size = match camera.viewport {
        Some(size) => Some(size),
        None => match camera.target {
            RenderTargetSize::Window(size) => size,
            RenderTargetSize::Image(size) => size,
            RenderTargetSize::TextureView(size) => size,
            RenderTargetSize::NoTarget(size) => Some(size),
        },
    };
    match size {
        Some(size) => Some(
            Extent3d { width: size.width, height: size.height, depth_or_array_layers: 1 },
        ),
        None => None,
    }
}

/// The viewport decides: a camera with a viewport has the viewport's physical size as a
/// flat extent, whatever its target. Without a viewport, a window, image or texture view
/// gives its size when it is present and no size when it is not, and a headless target
/// gives the size it carries.
pub proof fn law_viewport_size_comes_first(camera: CameraSizing)
    ensures
        camera.viewport matches Some(s) ==> viewport_extent(camera)
            == Some(Extent3d { width: s.width, height: s.height, depth_or_array_layers: 1 }),
        camera.viewport is None ==> match camera.target {
            RenderTargetSize::Window(Some(s)) => viewport_extent(camera)
                == Some(Extent3d { width: s.width, height: s.height, depth_or_array_layers: 1 }),
            RenderTargetSize::Image(Some(s)) => viewport_extent(camera)
                == Some(Extent3d { width: s.width, height: s.height, depth_or_array_layers: 1 }),
            RenderTargetSize::TextureView(Some(s)) => viewport_extent(camera)
                == Some(Extent3d { width: s.width, height: s.height, depth_or_array_layers: 1 }),
            RenderTargetSize::NoTarget(s) => viewport_extent(camera)
                == Some(Extent3d { width: s.width, height: s.height, depth_or_array_layers: 1 }),
            _ => viewport_extent(camera) is None,
        },
{
}

} // verus!
