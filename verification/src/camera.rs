use vstd::prelude::*;

use crate::viewport::{
    get_viewport_size, law_viewport_size_comes_first, viewport_extent, CameraSizing, Extent3d, PhysicalSize,
};

verus! {

/// The render order given to a portal's camera when it is spawned, so that it renders
/// before the primary camera that shows its image.
pub const PORTAL_CAMERA_ORDER: isize = -1;

/// Why a portal's camera could not be set up.
#[derive(Clone, Copy, Debug, PartialEq, Eq, Structural)]
pub enum SetupError {
    /// The portal's primary camera entity holds no camera.
    MissingPrimaryCamera,
    /// No size could be obtained for the primary camera's view, so no image was created.
    NoViewportSize,
    /// The portal's target has no global transform.
    MissingTargetTransform,
}

/// What setting up a newly added portal's camera does.
///
/// First an image with the size of the primary camera's view is created for the portal;
/// then a camera is spawned at the target's transform, rendering to that image, and is
/// linked to the portal.
#[derive(Clone, Copy, Debug, PartialEq, Eq)]
pub struct SetupPlan {
    /// The size of the image created for the portal, if one is created.
    pub image: Option<Extent3d>,
    /// `Ok` when the portal's camera is spawned and linked, else why it is not.
    pub outcome: Result<(), SetupError>,
}

/// Setting up a portal's camera, given its primary camera (`None` when that entity holds
/// no camera) and whether its target has a global transform.
pub open spec fn spec_setup_plan(primary_camera: Option<CameraSizing>, target_found: bool) -> SetupPlan {
    match primary_camera {
        None => SetupPlan { image: None, outcome: Err(SetupError::MissingPrimaryCamera) },
        Some(camera) => match viewport_extent(camera) {
            None => SetupPlan { image: None, outcome: Err(SetupError::NoViewportSize) },
            Some(size) => SetupPlan {
                image: Some(size),
                outcome: if target_found {
                    Ok(())
                } else {
                    Err(SetupError::MissingTargetTransform)
                },
            },
        },
    }
}

/// Decides how a newly added portal's camera is set up.
///
/// The checks come in order: the primary camera must hold a camera, its view must have a
/// size (the image is then created), and the target must have a global transform.
/// An image created before the last check fails is kept.
pub fn plan_portal_camera_setup(primary_camera: Option<CameraSizing>, target_found: bool) -> (plan: SetupPlan)
    ensures
        plan == spec_setup_plan(primary_camera, target_found),
{
    match primary_camera {
        None => SetupPlan { image: None, outcome: Err(SetupError::MissingPrimaryCamera) },
        Some(camera) => match get_viewport_size(&camera) {
            None => SetupPlan { image: None, outcome: Err(SetupError::NoViewportSize) },
            Some(size) => SetupPlan {
                image: Some(size),
                outcome: if target_found {
                    Ok(())
                } else {
                    Err(SetupError::MissingTargetTransform)
                },
            },
        },
    }
}

/// What resizing one portal's image does after a window was resized.
#[derive(Clone, Copy, Debug, PartialEq, Eq, Structural)]
pub enum ResizeAction {
    /// Nothing changes: the primary camera or the portal's camera is missing.
    Skip,
    /// The old image is removed, but no size can be told for a new one: the portal's
    /// camera and image handle are left as they were.
    RemoveOnly,
    /// The old image is removed and a new one of this size is created; the portal's
    /// camera renders to it and the portal holds it from now on.
    Replace(Extent3d),
}

/// Resizing a portal's image, given its primary camera (`None` when that entity holds no
/// camera, or holds a portal camera) and whether its linked camera was found.
pub open spec fn spec_resize_action(primary_camera: Option<CameraSizing>, portal_camera_found: bool) -> ResizeAction {
    match primary_camera {
        None => ResizeAction::Skip,
        Some(camera) => if !portal_camera_found {
            ResizeAction::Skip
        } else {
            match viewport_extent(camera) {
                None => ResizeAction::RemoveOnly,
                Some(size) => ResizeAction::Replace(size),
            }
        },
    }
}

/// Decides how one portal's image is replaced after the window was resized.
pub fn plan_image_resize(primary_camera: Option<CameraSizing>, portal_camera_found: bool) -> (action: ResizeAction)
    ensures
        action == spec_resize_action(primary_camera, portal_camera_found),
{
    match primary_camera {
        None => ResizeAction::Skip,
        Some(camera) => {
            if !portal_camera_found {
                ResizeAction::Skip
            } else {
                match get_viewport_size(&camera) {
                    None => ResizeAction::RemoveOnly,
                    Some(size) => ResizeAction::Replace(size),
                }
            }
        },
    }
}

/// A portal camera is spawned exactly when its primary camera holds a camera whose view
/// has a size and its target has a global transform; the image it renders to then has the
/// size of that view.
pub proof fn lemma_setup_spawns_iff(primary_camera: Option<CameraSizing>, target_found: bool)
    ensures
        spec_setup_plan(primary_camera, target_found).outcome is Ok <==> (
            primary_camera is Some
            && viewport_extent(primary_camera.unwrap()) is Some
            && target_found),
        spec_setup_plan(primary_camera, target_found).outcome is Ok ==>
            spec_setup_plan(primary_camera, target_found).image
                == viewport_extent(primary_camera.unwrap()),
{
}

/// For the same primary camera, the image a resize creates has the size of the image that
/// the setup created, and a resize with both cameras present creates an image exactly when
/// the setup would have.
pub proof fn lemma_resize_matches_setup(camera: CameraSizing, target_found: bool)
    ensures
        match spec_resize_action(Some(camera), true) {
            ResizeAction::Replace(size) => spec_setup_plan(Some(camera), target_found).image == Some(size),
            ResizeAction::RemoveOnly => spec_setup_plan(Some(camera), target_found).image is None,
            ResizeAction::Skip => false,
        },
{
}

/// A primary camera with a viewport gives the portal an image of the viewport's size, both
/// when the portal's camera is set up and when its image is replaced after a resize,
/// whatever the primary camera renders to.
pub proof fn law_images_take_the_viewport_size(camera: CameraSizing, target_found: bool, s: PhysicalSize)
    requires
        camera.viewport == Some(s),
    ensures
        spec_setup_plan(Some(camera), target_found).image
            == Some(Extent3d { width: s.width, height: s.height, depth_or_array_layers: 1 }),
        spec_setup_plan(Some(camera), target_found).outcome == (if target_found {
            Ok(())
        } else {
            Err(SetupError::MissingTargetTransform)
        }),
        spec_resize_action(Some(camera), true)
            == ResizeAction::Replace(Extent3d { width: s.width, height: s.height, depth_or_array_layers: 1 }),
{
    law_viewport_size_comes_first(camera);
}

} // verus!
