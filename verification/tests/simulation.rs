//! Whole-tick scenarios: landing, jumping, orb triggers, crash
//! short-circuiting, obstacle pruning and victory.

use geometry_dash::block::Block;
use geometry_dash::constants::{GRAVITY_PER_TICK, JUMP_IMPULSE, JUMP_SENTINEL, SPEED_PER_TICK};
use geometry_dash::game::Game;
use geometry_dash::orb::Orb;
use geometry_dash::player::Player;
use geometry_dash::spike::Spike;
use geometry_dash::vector::Vector;

/// Pixels to sub-pixel units.
fn px(v: i64) -> i64 {
    v * 2000
}

fn running_game() -> Game {
    let mut g = Game::new();
    g.frozen = false;
    g
}

/// A block so far to the right that no short run ever reaches it: it
/// keeps the attempt from ending in an instant victory.
fn far_block() -> Block {
    Block::new(Vector::new(px(400_000), px(100)), Vector::new(px(50), px(10)))
}

#[test]
fn resting_player_keeps_its_height() {
    let mut g = running_game();
    g.blocks.push(far_block());
    assert_eq!(g.player.pos.y, px(893));
    for _ in 0..5 {
        g.update();
        assert_eq!(g.player.pos.y, px(893));
        assert_eq!(g.player.vel.y, 0);
        assert!(g.player.grounded);
    }
}

#[test]
fn resting_player_keeps_sentinel_anchor() {
    let mut g = running_game();
    g.blocks.push(far_block());
    for _ in 0..3 {
        g.update();
        assert!(g.player.grounded);
        assert_eq!(g.player.jump.x, JUMP_SENTINEL);
        assert_eq!(g.player.jump.y, JUMP_SENTINEL);
    }
}

#[test]
fn ground_jump_sets_impulse_and_anchor() {
    let mut g = running_game();
    g.player.jumping = true;
    g.update();
    assert_eq!(g.player.vel.y, -JUMP_IMPULSE);
    assert!(!g.player.grounded);
    assert_eq!(g.player.jump.x, px(384) + px(250));
    assert_eq!(g.player.jump.y, px(893));
}

#[test]
fn jump_arc_comes_back_to_the_ground() {
    let mut g = running_game();
    g.blocks.push(far_block());
    g.player.jumping = true;
    g.update();
    g.player.jumping = false;
    let mut landed = false;
    for _ in 0..100 {
        g.update();
        if g.player.pos.y == px(893) && g.player.vel.y == 0 {
            landed = true;
            break;
        }
    }
    assert!(landed);
    assert!(g.player.grounded);
    assert_eq!(g.player.jump.x, JUMP_SENTINEL);
}

#[test]
fn orb_fires_once_and_only_once() {
    let mut g = running_game();
    g.blocks.push(far_block());
    g.player.grounded = false;
    g.player.pos = Vector::new(px(384), px(500));
    g.player.jumping = true;
    g.orbs.push(Orb::new(Vector::new(px(384), px(500)), px(100)));

    g.update();
    assert!(g.orbs[0].activated);
    assert_eq!(g.player.vel.y, -JUMP_IMPULSE);

    // Still overlapping, still holding jump: the spent orb gives no
    // second impulse, so plain gravity integration shows through.
    g.update();
    assert_eq!(g.player.vel.y, -JUMP_IMPULSE + GRAVITY_PER_TICK);
}

#[test]
fn spike_crash_freezes_the_rest_of_the_tick() {
    let mut g = running_game();
    // One spike straight under the player, then further obstacles that
    // the crash must leave untouched.
    g.spikes.push(Spike::new(
        Vector::new(px(384) + SPEED_PER_TICK, px(918)),
        Vector::new(px(60), px(60)),
        false,
    ));
    g.spikes.push(Spike::new(
        Vector::new(px(1500), px(918)),
        Vector::new(px(60), px(60)),
        false,
    ));
    g.blocks.push(Block::new(
        Vector::new(px(1000), px(100)),
        Vector::new(px(50), px(50)),
    ));

    g.update();
    assert!(g.player.crashed);
    // The crashing spike was scrolled; the one after it was not.
    assert_eq!(g.spikes[0].pos.x, px(384));
    assert_eq!(g.spikes[1].pos.x, px(1500));
    // The block pass never ran.
    assert_eq!(g.blocks[0].pos.x, px(1000));
    assert!(!g.victory);
    assert!(!g.frozen);

    // A crashed game ignores further ticks entirely.
    g.update();
    assert_eq!(g.spikes[0].pos.x, px(384));
}

#[test]
fn removal_keeps_relative_order() {
    let mut g = running_game();
    // The first block's trailing edge reaches the boundary this tick;
    // the two survivors must keep their order and scroll exactly once.
    g.blocks.push(Block::new(
        Vector::new(SPEED_PER_TICK - px(50), px(100)),
        Vector::new(px(50), px(10)),
    ));
    g.blocks.push(Block::new(
        Vector::new(px(900), px(100)),
        Vector::new(px(50), px(10)),
    ));
    g.blocks.push(Block::new(
        Vector::new(px(1100), px(200)),
        Vector::new(px(50), px(10)),
    ));

    g.update();
    assert_eq!(g.blocks.len(), 2);
    assert_eq!(g.blocks[0].pos.x, px(900) - SPEED_PER_TICK);
    assert_eq!(g.blocks[0].pos.y, px(100));
    assert_eq!(g.blocks[1].pos.x, px(1100) - SPEED_PER_TICK);
    assert_eq!(g.blocks[1].pos.y, px(200));
}

#[test]
fn obstacle_scrolled_to_exactly_its_width_is_removed() {
    let mut g = running_game();
    // After this tick's scroll the block stands at exactly -width: fully
    // off the left edge, so it leaves the world.
    g.blocks.push(Block::new(
        Vector::new(SPEED_PER_TICK - px(50), px(100)),
        Vector::new(px(50), px(10)),
    ));
    g.update();
    assert!(g.blocks.is_empty());
}

#[test]
fn victory_needs_all_three_collections_empty() {
    let mut g = running_game();
    // The spike leaves the world on the first tick, the block only on
    // the second: victory must wait for the block.
    g.spikes.push(Spike::new(
        Vector::new(SPEED_PER_TICK - px(25), px(918)),
        Vector::new(px(50), px(50)),
        false,
    ));
    g.blocks.push(Block::new(
        Vector::new(2 * SPEED_PER_TICK - px(50), px(100)),
        Vector::new(px(50), px(10)),
    ));

    g.update();
    assert!(g.spikes.is_empty());
    assert!(!g.blocks.is_empty());
    assert!(!g.victory);
    assert!(!g.frozen);

    g.update();
    assert!(g.blocks.is_empty());
    assert!(g.victory);
    assert!(g.frozen);
}

#[test]
fn frozen_game_changes_nothing() {
    let mut g = Game::new();
    g.blocks.push(Block::new(
        Vector::new(px(900), px(100)),
        Vector::new(px(50), px(10)),
    ));
    g.update();
    assert_eq!(g.blocks[0].pos.x, px(900));
    assert_eq!(g.player.pos.y, px(893));
}

#[test]
fn block_landing_through_update_snaps_and_holds() {
    let mut g = running_game();
    g.blocks.push(far_block());
    // A block whose top face the player is about to cross while falling.
    g.player.grounded = false;
    g.player.pos = Vector::new(px(384), px(770));
    g.player.vel.y = px(6);
    g.blocks.push(Block::new(
        Vector::new(px(300), px(800)),
        Vector::new(px(400), px(20)),
    ));

    g.update();
    // Fell to 776.575 px, inside the landing band around the 800 px
    // face, and snapped to its resting height.
    assert_eq!(g.player.pos.y, px(775));
    assert_eq!(g.player.vel.y, 0);
    assert!(!g.player.crashed);

    // Resting on the face re-triggers nothing: the strict band excludes
    // the resting height, so the player stays put and stays grounded.
    g.update();
    assert_eq!(g.player.pos.y, px(775));
    assert!(g.player.grounded);
    assert!(!g.player.crashed);
}

#[test]
fn gravity_toggle_flips_acceleration_and_plane() {
    let mut p = Player::new();
    assert_eq!(p.acc.y, GRAVITY_PER_TICK);
    p.toggle_gravity();
    assert!(p.gravity_flip);
    assert_eq!(p.acc.y, -GRAVITY_PER_TICK);
    assert!(!p.grounded);
    assert_eq!(p.jump.y, px(162));
    p.toggle_gravity();
    assert!(!p.gravity_flip);
    assert_eq!(p.acc.y, GRAVITY_PER_TICK);
    assert_eq!(p.jump.y, px(918));
}

#[test]
fn flipped_gravity_rests_on_the_upper_plane() {
    let mut g = running_game();
    g.blocks.push(far_block());
    g.player.toggle_gravity();
    let mut rested = false;
    for _ in 0..300 {
        g.update();
        if g.player.pos.y == px(162) + px(25) && g.player.vel.y == 0 {
            rested = true;
            break;
        }
    }
    assert!(rested);
}
