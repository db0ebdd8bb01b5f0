use vstd::prelude::*;

verus! {

/// The side of a portal's mesh that is culled.
#[derive(Clone, Copy, Debug, PartialEq, Eq, Structural)]
pub enum Face {
    Front,
    Back,
}

/// A portal.
///
/// Entities are carried by their bits: the primary camera that looks at the portal,
/// the target entity whose transform places the portal's own camera, and, once that
/// camera has been spawned, the camera itself.
#[non_exhaustive]
#[derive(Clone, Copy, Debug, PartialEq, Eq)]
pub struct Portal {
    /// The entity with the primary render camera, the one used to look at this portal.
    pub primary_camera: u64,
    /// The target entity that decides where the portal's camera stands.
    pub target: u64,
    /// Which side of the portal to cull: front, back, or neither (`None`).
    ///
    /// Defaults to `Some(Face::Back)`.
    pub cull_mode: Option<Face>,
    /// The entity of this portal's camera, `None` until that camera is spawned.
    linked_camera: Option<u64>,
    /// Whether the near plane of the portal camera's frustum is flipped when the primary
    /// camera looks at the back of the portal. Defaults to `false`.
    pub flip_near_plane_normal: bool,
}

/// What a [`Portal`] holds, field by field.
pub struct PortalView {
    pub primary_camera: u64,
    pub target: u64,
    pub cull_mode: Option<Face>,
    pub linked_camera: Option<u64>,
    pub flip_near_plane_normal: bool,
}

impl View for Portal {
    type V = PortalView;

    closed spec fn view(&self) -> PortalView {
        PortalView {
            primary_camera: self.primary_camera,
            target: self.target,
            cull_mode: self.cull_mode,
            linked_camera: self.linked_camera,
            flip_near_plane_normal: self.flip_near_plane_normal,
        }
    }
}

impl Portal {
    /// Creates a portal looked at by `primary_camera`, whose camera is placed by `target`.
    ///
    /// The back face is culled, the near plane is never flipped, and no camera is linked yet.
    pub fn new(primary_camera: u64, target: u64) -> (portal: Self)
        ensures
            portal@ == (PortalView {
                primary_camera,
                target,
                cull_mode: Some(Face::Back),
                linked_camera: None,
                flip_near_plane_normal: false,
            }),
    {
        Portal {
            primary_camera,
            target,
            cull_mode: Some(Face::Back),
            linked_camera: None,
            flip_near_plane_normal: false,
        }
    }

    /// Sets which side of the portal is culled; nothing else changes.
    pub fn with_cull_mode(self, cull_mode: Option<Face>) -> (portal: Self)
        ensures
            portal@ == (PortalView { cull_mode, ..self@ }),
    {
        let mut portal = self;
        portal.cull_mode = cull_mode;
        portal
    }

    /// Sets whether the near plane may be flipped; nothing else changes.
    pub fn with_flip_near_plane_normal(self, with_flip_near_plane_normal: bool) -> (portal: Self)
        ensures
            portal@ == (PortalView { flip_near_plane_normal: with_flip_near_plane_normal, ..self@ }),
    {
        let mut portal = self;
        portal.flip_near_plane_normal = with_flip_near_plane_normal;
        portal
    }

    /// The camera spawned for this portal, if any.
    pub fn linked_camera(&self) -> (camera: Option<u64>)
        ensures
            camera == self@.linked_camera,
    {
        self.linked_camera
    }

    /// Records `camera` as the camera spawned for this portal; nothing else changes.
    pub fn link_camera(&mut self, camera: u64)
        ensures
            final(self)@ == (PortalView { linked_camera: Some(camera), ..old(self)@ }),
    {
        self.linked_camera = Some(camera);
    }

    /// Whether the near plane of the portal camera is flipped this frame, given whether
    /// the primary camera is on the back side of the portal (the vector from the primary
    /// camera to the portal does not point along the portal's forward direction).
    pub fn flips_near_plane(&self, primary_camera_behind: bool) -> (flip: bool)
        ensures
            flip == (self@.flip_near_plane_normal && primary_camera_behind),
    {
        self.flip_near_plane_normal && primary_camera_behind
    }
}

} // verus!
