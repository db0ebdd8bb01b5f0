//! Easy-to-use portals: the decisions behind a portal's camera, its render image and
//! the pointer input that passes through it, stated and proved over plain values.

pub mod camera;
pub mod picking;
pub mod portal;
pub mod viewport;

pub use camera::{
    plan_image_resize, plan_portal_camera_setup, ResizeAction, SetupError, SetupPlan,
    PORTAL_CAMERA_ORDER,
};
pub use picking::{portal_hover_routes, HoverHit, Route, RouteKind};
pub use portal::{Face, Portal, PortalView};
pub use viewport::{get_viewport_size, CameraSizing, Extent3d, PhysicalSize, RenderTargetSize};
