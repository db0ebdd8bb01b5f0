use bevy_easy_portals::{Face, Portal};

#[test]
fn new_portal_has_documented_defaults() {
    let portal = Portal::new(7, 9);
    assert_eq!(portal.primary_camera, 7);
    assert_eq!(portal.target, 9);
    assert_eq!(portal.cull_mode, Some(Face::Back));
    assert!(!portal.flip_near_plane_normal);
    assert_eq!(portal.linked_camera(), None);
}

#[test]
fn with_cull_mode_changes_only_cull_mode() {
    let portal = Portal::new(1, 2).with_cull_mode(None);
    assert_eq!(portal.cull_mode, None);
    assert_eq!(portal.primary_camera, 1);
    assert_eq!(portal.target, 2);
    assert!(!portal.flip_near_plane_normal);
    assert_eq!(portal.linked_camera(), None);

    let front = portal.with_cull_mode(Some(Face::Front));
    assert_eq!(front.cull_mode, Some(Face::Front));
}

#[test]
fn with_flip_near_plane_normal_changes_only_the_flag() {
    let portal = Portal::new(1, 2).with_flip_near_plane_normal(true);
    assert!(portal.flip_near_plane_normal);
    assert_eq!(portal.cull_mode, Some(Face::Back));
    assert_eq!(portal.primary_camera, 1);
    assert_eq!(portal.target, 2);
    let back = portal.with_flip_near_plane_normal(false);
    assert!(!back.flip_near_plane_normal);
}

#[test]
fn link_camera_records_the_camera_and_keeps_the_rest() {
    let mut portal = Portal::new(3, 4).with_cull_mode(Some(Face::Front));
    portal.link_camera(42);
    assert_eq!(portal.linked_camera(), Some(42));
    assert_eq!(portal.cull_mode, Some(Face::Front));
    assert_eq!(portal.primary_camera, 3);
    assert_eq!(portal.target, 4);
    // builders keep the linked camera
    let flipped = portal.with_flip_near_plane_normal(true);
    assert_eq!(flipped.linked_camera(), Some(42));
    portal.link_camera(43);
    assert_eq!(portal.linked_camera(), Some(43));
}

#[test]
fn near_plane_flips_only_when_enabled_and_behind() {
    let off = Portal::new(1, 2);
    assert!(!off.flips_near_plane(true));
    assert!(!off.flips_near_plane(false));
    let on = off.with_flip_near_plane_normal(true);
    assert!(on.flips_near_plane(true));
    assert!(!on.flips_near_plane(false));
}
