//! Direct checks of the surface queries, the crash predicates and the
//! exact geometry primitives.

use geometry_dash::block::Block;
use geometry_dash::player::Player;
use geometry_dash::spike::Spike;
use geometry_dash::surface_result::SurfaceResult;
use geometry_dash::util::{line_line, line_rect, polygon_point};
use geometry_dash::vector::Vector;

/// Pixels to sub-pixel units.
fn px(v: i64) -> i64 {
    v * 2000
}

#[test]
fn on_ground_snaps_once_the_leading_edge_reaches_the_plane() {
    let mut p = Player::new();
    p.pos = Vector::new(px(384), px(880));
    assert_eq!(p.on_ground(), SurfaceResult::NotOnSurface);
    // Once pos.y + 25 px reaches the 918 px plane the query names the
    // resting center, 893 px.
    p.pos.y = px(895);
    assert_eq!(p.on_ground(), SurfaceResult::OnSurface(px(893)));
    p.pos.y = px(893);
    assert_eq!(p.on_ground(), SurfaceResult::OnSurface(px(893)));
}

#[test]
fn on_ground_flipped_uses_the_upper_plane() {
    let mut p = Player::new();
    p.toggle_gravity();
    p.pos = Vector::new(px(384), px(200));
    assert_eq!(p.on_ground(), SurfaceResult::NotOnSurface);
    p.pos.y = px(170);
    assert_eq!(p.on_ground(), SurfaceResult::OnSurface(px(187)));
}

#[test]
fn on_block_names_the_resting_center_on_the_top_face() {
    let block = Block::new(Vector::new(px(500), px(800)), Vector::new(px(100), px(20)));
    let mut p = Player::new();
    p.pos = Vector::new(px(520), px(790));
    assert_eq!(p.on_block(&block), SurfaceResult::OnSurface(px(775)));
    // Already resting on the face: the strict band does not re-trigger.
    p.pos.y = px(775);
    assert_eq!(p.on_block(&block), SurfaceResult::NotOnSurface);
    // No horizontal overlap.
    p.pos = Vector::new(px(300), px(790));
    assert_eq!(p.on_block(&block), SurfaceResult::NotOnSurface);
}

#[test]
fn side_contact_with_a_block_is_fatal() {
    let block = Block::new(Vector::new(px(500), px(800)), Vector::new(px(100), px(20)));
    let mut p = Player::new();
    // Level with the block's body, straddling the bottom face: no
    // landing band contact, fatal side hit.
    p.pos = Vector::new(px(480), px(830));
    assert_eq!(p.on_block(&block), SurfaceResult::NotOnSurface);
    p.check_block_crash(&block);
    assert!(p.crashed);
    // A crash is terminal: moving clear of the block and checking again
    // does not revive the player.
    p.pos = Vector::new(px(300), px(700));
    p.check_block_crash(&block);
    assert!(p.crashed);
    // A player that was never in contact stays uncrashed.
    let mut q = Player::new();
    q.pos = Vector::new(px(300), px(700));
    q.check_block_crash(&block);
    assert!(!q.crashed);
}

#[test]
fn spike_apex_overlap_is_fatal() {
    // Base at (600, 918), apex at (600, 858): upright, normal gravity.
    let spike = Spike::new(Vector::new(px(600), px(918)), Vector::new(px(60), px(60)), false);
    let mut p = Player::new();
    p.pos = Vector::new(px(600), px(860));
    p.check_spike_crash(&spike);
    assert!(p.crashed);

    // A crash is terminal: moving clear of the spike and checking again
    // does not revive the player.
    p.pos = Vector::new(px(700), px(700));
    p.check_spike_crash(&spike);
    assert!(p.crashed);

    // Entirely above and to the right of the triangle: no contact.
    let mut q = Player::new();
    q.pos = Vector::new(px(700), px(700));
    q.check_spike_crash(&spike);
    assert!(!q.crashed);
}

#[test]
fn spike_vertices_follow_position_and_orientation() {
    let spike = Spike::new(Vector::new(px(600), px(918)), Vector::new(px(60), px(60)), false);
    let v = spike.vertices();
    assert_eq!(v[0], Vector::new(px(570), px(918)));
    assert_eq!(v[1], Vector::new(px(630), px(918)));
    assert_eq!(v[2], Vector::new(px(600), px(858)));

    let flipped = Spike::new(Vector::new(px(600), px(162)), Vector::new(px(60), px(60)), true);
    assert_eq!(flipped.vertices()[2], Vector::new(px(600), px(222)));
}

#[test]
fn orb_overlap_is_a_box_against_circle_test() {
    let mut p = Player::new();
    p.pos = Vector::new(px(384), px(500));
    let near = geometry_dash::orb::Orb::new(Vector::new(px(430), px(500)), px(50));
    // Circle center 46 px right of the player's center: 21 px from the
    // box edge, within the 25 px radius.
    assert!(p.check_orb_collide(&near));
    let far = geometry_dash::orb::Orb::new(Vector::new(px(440), px(500)), px(50));
    // 31 px from the box edge: out of reach.
    assert!(!p.check_orb_collide(&far));
}

#[test]
fn crossing_segments_intersect() {
    assert!(line_line(
        &Vector::new(0, 0),
        &Vector::new(10, 10),
        &Vector::new(0, 10),
        &Vector::new(10, 0),
    ));
    assert!(!line_line(
        &Vector::new(0, 0),
        &Vector::new(10, 10),
        &Vector::new(20, 0),
        &Vector::new(30, 10),
    ));
}

#[test]
fn parallel_segments_never_intersect() {
    // Disjoint parallels.
    assert!(!line_line(
        &Vector::new(0, 0),
        &Vector::new(10, 0),
        &Vector::new(0, 1),
        &Vector::new(10, 1),
    ));
    // Collinear and overlapping: the parametric determinant is zero, and
    // the parallel case counts as no intersection by policy.
    assert!(!line_line(
        &Vector::new(0, 0),
        &Vector::new(10, 0),
        &Vector::new(5, 0),
        &Vector::new(15, 0),
    ));
}

#[test]
fn segment_against_rectangle() {
    let pos = Vector::new(10, 10);
    let size = Vector::new(10, 10);
    // Pierces the rectangle from far left to far right.
    assert!(line_rect(&Vector::new(0, 15), &Vector::new(30, 15), &pos, &size));
    // Passes above it.
    assert!(!line_rect(&Vector::new(0, 5), &Vector::new(30, 5), &pos, &size));
    // Ends before reaching it.
    assert!(!line_rect(&Vector::new(0, 15), &Vector::new(9, 15), &pos, &size));
}

#[test]
fn point_in_triangle_by_parity() {
    let tri = [Vector::new(0, 0), Vector::new(10, 0), Vector::new(5, 10)];
    assert!(polygon_point(tri, Vector::new(5, 5)));
    assert!(!polygon_point(tri, Vector::new(20, 5)));
    assert!(!polygon_point(tri, Vector::new(0, 9)));
}

#[test]
fn dist_rounds_the_euclidean_distance_down() {
    assert_eq!(Vector::new(0, 0).dist(&Vector::new(3, 4)), 5);
    assert_eq!(Vector::new(0, 0).dist(&Vector::new(1, 1)), 1);
    assert_eq!(Vector::new(-3, 0).dist(&Vector::new(0, -4)), 5);
    assert_eq!(Vector::new(7, 7).dist(&Vector::new(7, 7)), 0);
}
