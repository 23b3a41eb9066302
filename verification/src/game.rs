//! The simulation state and its fixed-timestep step.
//!
//! One call of [`Game::update`] advances one tick: the player's vertical
//! motion is integrated, every obstacle scrolls left by the player's
//! horizontal speed, landings, crashes and orb triggers are evaluated in
//! a fixed order, obstacles whose trailing edge has reached the left
//! boundary leave their collection, and victory freezes the attempt once
//! every collection is empty.  A crash stops the tick on the spot, so the
//! world freezes exactly as it stood at the moment of death.
//!
//! The whole tick is stated as the spec function [`tick`], built from
//! one spec function per phase; `update` is proved to produce exactly
//! that outcome.

use vstd::prelude::*;

use crate::block::Block;
use crate::constants::JUMP_SENTINEL;
use crate::level::{lemma_parsed_level_wf, level_lines, level_outcome, parse_level};
use crate::orb::Orb;
use crate::player::{resting_invariant, sentinel_anchor, Player};
use crate::spike::Spike;
use crate::surface_result::SurfaceResult;
use crate::vector::{clamp_coord, clamped, clamped_add, Vector};

verus! {

/// The whole state of one attempt.
pub struct Game {
    /// While set, ticks change nothing; raised on victory and while the
    /// attempt waits to start.
    pub frozen: bool,
    /// How many attempts have been started.
    pub attempt_count: u32,
    /// Terminal success: every obstacle outlived.
    pub victory: bool,
    pub player: Player,
    pub blocks: Vec<Block>,
    pub spikes: Vec<Spike>,
    pub orbs: Vec<Orb>,
}

/// `b` scrolled left by `dx`.
pub open spec fn scrolled_block(b: Block, dx: int) -> Block {
    Block { pos: Vector { x: clamp_coord(b.pos.x - dx) as i64, y: b.pos.y }, ..b }
}

/// Whether the block's trailing edge has reached the left boundary.
pub open spec fn block_gone(b: Block) -> bool {
    b.pos.x + b.size.x <= 0
}

/// `s` scrolled left by `dx`.
pub open spec fn scrolled_spike(s: Spike, dx: int) -> Spike {
    Spike { pos: Vector { x: clamp_coord(s.pos.x - dx) as i64, y: s.pos.y }, ..s }
}

/// Whether the spike's trailing base corner has reached the left
/// boundary.
pub open spec fn spike_gone(s: Spike) -> bool {
    s.pos.x + s.size.x / 2 <= 0
}

/// `o` scrolled left by `dx`.
pub open spec fn scrolled_orb(o: Orb, dx: int) -> Orb {
    Orb { pos: Vector { x: clamp_coord(o.pos.x - dx) as i64, y: o.pos.y }, ..o }
}

/// Whether the orb's trailing edge has reached the left boundary.
pub open spec fn orb_gone(o: Orb) -> bool {
    o.pos.x + o.d / 2 <= 0
}

/// Whether the orb fires this tick: the player overlaps it holding the
/// jump input, and it has never fired before.
pub open spec fn orb_fires(p: Player, o: Orb) -> bool {
    p.overlaps_orb(o) && p.jumping && !o.activated
}

/// One orb against the player: a firing orb is spent and hands the
/// player a fresh jump arc; any other orb changes nothing.
pub open spec fn orb_step(p: Player, o: Orb) -> (Player, Orb) {
    if orb_fires(p, o) {
        (p.jump_started(), Orb { activated: true, ..o })
    } else {
        (p, o)
    }
}

/// The first `n` orbs processed in order: each scrolls left, leaves the
/// world if its trailing edge is past the boundary, and otherwise may
/// fire.  Yields the player afterward and the kept orbs in their
/// original relative order.
pub open spec fn orbs_phase(p: Player, orbs: Seq<Orb>, n: int) -> (Player, Seq<Orb>)
    decreases n,
{
    if n <= 0 {
        (p, Seq::empty())
    } else {
        let (p1, kept) = orbs_phase(p, orbs, n - 1);
        let o = scrolled_orb(orbs[n - 1], p1.vel.x as int);
        if orb_gone(o) {
            (p1, kept)
        } else {
            let s = orb_step(p1, o);
            (s.0, kept.push(s.1))
        }
    }
}

/// The first `n` spikes processed in order: each scrolls left, leaves
/// the world past the boundary, and otherwise is checked for fatal
/// contact.  After a crash the remaining spikes are left untouched, not
/// even scrolled: the world freezes at the moment of death.
pub open spec fn spikes_phase(p: Player, spikes: Seq<Spike>, n: int) -> (Player, Seq<Spike>)
    decreases n,
{
    if n <= 0 {
        (p, Seq::empty())
    } else {
        let (p1, kept) = spikes_phase(p, spikes, n - 1);
        if p1.crashed {
            (p1, kept.push(spikes[n - 1]))
        } else {
            let s = scrolled_spike(spikes[n - 1], p1.vel.x as int);
            if spike_gone(s) {
                (p1, kept)
            } else {
                (p1.with_crashed(p1.hits_spike(s)), kept.push(s))
            }
        }
    }
}

/// The first `n` blocks processed in order: each scrolls left, leaves
/// the world past the boundary, and otherwise is checked first for a
/// landing, then for fatal side contact.  After a crash the remaining
/// blocks are left untouched.
pub open spec fn blocks_phase(p: Player, blocks: Seq<Block>, n: int) -> (Player, Seq<Block>)
    decreases n,
{
    if n <= 0 {
        (p, Seq::empty())
    } else {
        let (p1, kept) = blocks_phase(p, blocks, n - 1);
        if p1.crashed {
            (p1, kept.push(blocks[n - 1]))
        } else {
            let b = scrolled_block(blocks[n - 1], p1.vel.x as int);
            if block_gone(b) {
                (p1, kept)
            } else {
                let p2 = p1.block_snapped(b);
                (p2.with_crashed(p2.hits_block_side(b)), kept.push(b))
            }
        }
    }
}

/// The close of a tick the player survived: a resting player holding
/// the jump input starts a jump; any other player is left as it is, so
/// a player at rest stays grounded until a jump or a gravity toggle
/// lifts it off.
pub open spec fn end_of_tick(p: Player) -> Player {
    if p.grounded && p.jumping {
        p.jump_started()
    } else {
        p
    }
}

/// Everything one tick of a running game produces.
pub ghost struct TickOutcome {
    pub player: Player,
    pub orbs: Seq<Orb>,
    pub spikes: Seq<Spike>,
    pub blocks: Seq<Block>,
    pub victory: bool,
    pub frozen: bool,
}

/// One tick of a running game (neither frozen nor crashed): integration,
/// ground check, then orbs, spikes and blocks in that order.  A crash
/// against a spike or block ends the tick at once: later collections are
/// not scrolled and victory is not evaluated.  A survived tick ends with
/// the ground-jump check, and wins — raising `victory` and `frozen`
/// together — exactly when all three collections are empty.
pub open spec fn tick(g: Game) -> TickOutcome {
    let p1 = g.player.integrated().ground_snapped();
    let (p2, orbs1) = orbs_phase(p1, g.orbs@, g.orbs@.len() as int);
    let (p3, spikes1) = spikes_phase(p2, g.spikes@, g.spikes@.len() as int);
    if p3.crashed {
        TickOutcome {
            player: p3,
            orbs: orbs1,
            spikes: spikes1,
            blocks: g.blocks@,
            victory: g.victory,
            frozen: g.frozen,
        }
    } else {
        let (p4, blocks1) = blocks_phase(p3, g.blocks@, g.blocks@.len() as int);
        if p4.crashed {
            TickOutcome {
                player: p4,
                orbs: orbs1,
                spikes: spikes1,
                blocks: blocks1,
                victory: g.victory,
                frozen: g.frozen,
            }
        } else {
            let p5 = end_of_tick(p4);
            let win = orbs1.len() == 0 && spikes1.len() == 0 && blocks1.len() == 0;
            TickOutcome {
                player: p5,
                orbs: orbs1,
                spikes: spikes1,
                blocks: blocks1,
                victory: win,
                frozen: win,
            }
        }
    }
}

impl Default for Game {
    fn default() -> (g: Game)
        ensures
            g.frozen,
            g.attempt_count == 0,
            !g.victory,
            g.player == Player::initial(),
            g.blocks@.len() == 0,
            g.spikes@.len() == 0,
            g.orbs@.len() == 0,
    {
        Game {
            frozen: true,
            attempt_count: 0,
            victory: false,
            player: Player::new(),
            blocks: Vec::new(),
            spikes: Vec::new(),
            orbs: Vec::new(),
        }
    }
}

impl Game {
    /// The player and every obstacle are well-formed.
    pub open spec fn wf(self) -> bool {
        &&& self.player.wf()
        &&& forall|i: int| 0 <= i < self.blocks@.len() ==> (#[trigger] self.blocks@[i]).wf()
        &&& forall|i: int| 0 <= i < self.spikes@.len() ==> (#[trigger] self.spikes@[i]).wf()
        &&& forall|i: int| 0 <= i < self.orbs@.len() ==> (#[trigger] self.orbs@[i]).wf()
    }

    pub fn new() -> (g: Game)
        ensures
            g.frozen,
            g.attempt_count == 0,
            !g.victory,
            g.player == Player::initial(),
            g.blocks@.len() == 0,
            g.spikes@.len() == 0,
            g.orbs@.len() == 0,
            g.wf(),
    {
        Game { ..Default::default() }
    }

    /// Replaces the whole state with a fresh attempt at the given level:
    /// a new player, the level's obstacles, the attempt counter advanced
    /// and the game frozen until the input layer releases it.  A
    /// malformed level changes nothing and reports failure, so no
    /// partial level state is ever left behind.
    pub fn initialize_level(&mut self, level_text: &[u8]) -> (ok: bool)
        requires
            old(self).wf(),
            old(self).attempt_count < u32::MAX,
        ensures
            final(self).wf(),
            ok <==> level_outcome(level_text@) is Some,
            !ok ==> *final(self) == *old(self),
            ok ==> (level_outcome(level_text@) matches Some(t) && final(self).player
                == Player::initial() && final(self).blocks@ == t.0 && final(self).spikes@ == t.1
                && final(self).orbs@ == t.2 && final(self).frozen && !final(self).victory
                && final(self).attempt_count == old(self).attempt_count + 1),
    {
        match parse_level(level_text) {
            Option::None => false,
            Option::Some(data) => {
                self.player = Player::new();
                self.blocks = data.blocks;
                self.spikes = data.spikes;
                self.orbs = data.orbs;
                self.attempt_count = self.attempt_count + 1;
                self.frozen = true;
                self.victory = false;
                proof {
                    lemma_parsed_level_wf(level_lines(level_text@));
                }
                true
            },
        }
    }

    /// Advances the simulation by one tick; a frozen or crashed game is
    /// left exactly as it is, and otherwise the new state is the one
    /// [`tick`] describes.
    pub fn update(&mut self)
        requires
            old(self).wf(),
        ensures
            final(self).wf(),
            old(self).frozen || old(self).player.crashed ==> *final(self) == *old(self),
            !(old(self).frozen || old(self).player.crashed) ==> ({
                let t = tick(*old(self));
                &&& final(self).player == t.player
                &&& final(self).orbs@ == t.orbs
                &&& final(self).spikes@ == t.spikes
                &&& final(self).blocks@ == t.blocks
                &&& final(self).victory == t.victory
                &&& final(self).frozen == t.frozen
                &&& final(self).attempt_count == old(self).attempt_count
            }),
    {
        if self.frozen || self.player.crashed {
            return;
        }
        let ghost g0: Game = *old(self);

        self.player.integrate();
        match self.player.on_ground() {
            SurfaceResult::OnSurface(y) => {
                self.player.grounded = true;
                self.player.jump = Vector::new(JUMP_SENTINEL, JUMP_SENTINEL);
                self.player.pos.y = y;
                self.player.vel.y = 0;
            },
            SurfaceResult::NotOnSurface => {},
        }
        proof {
            assert(self.player == g0.player.integrated().ground_snapped());
        }

        let ghost p_orbs_start: Player = self.player;
        let ghost orbs0: Seq<Orb> = self.orbs@;
        let mut kept_orbs: Vec<Orb> = Vec::new();
        let orbs_len: usize = self.orbs.len();
        let mut k: usize = 0;
        while k < orbs_len
            invariant
                0 <= k <= orbs_len,
                orbs_len == self.orbs@.len(),
                self.orbs@ == orbs0,
                forall|i: int| 0 <= i < orbs0.len() ==> (#[trigger] orbs0[i]).wf(),
                self.player.wf(),
                self.player == orbs_phase(p_orbs_start, orbs0, k as int).0,
                kept_orbs@ == orbs_phase(p_orbs_start, orbs0, k as int).1,
                forall|i: int| 0 <= i < kept_orbs@.len() ==> (#[trigger] kept_orbs@[i]).wf(),
                g0.wf(),
                self.spikes@ == g0.spikes@,
                self.blocks@ == g0.blocks@,
                self.frozen == g0.frozen,
                self.victory == g0.victory,
                self.attempt_count == g0.attempt_count,
            decreases orbs_len - k,
        {
            let orb: Orb = self.orbs[k];
            let scrolled: Orb = Orb {
                pos: Vector { x: clamped_add(orb.pos.x, -self.player.vel.x), y: orb.pos.y },
                ..orb
            };
            proof {
                assert(scrolled == scrolled_orb(orbs0[k as int], self.player.vel.x as int));
            }
            if scrolled.pos.x + scrolled.d / 2 <= 0 {
                // gone: the trailing edge has reached the left boundary
            } else {
                proof {
                    assert(scrolled.wf());
                }
                if self.player.check_orb_collide(&scrolled) && self.player.jumping
                    && !scrolled.activated {
                    let fired: Orb = Orb { activated: true, ..scrolled };
                    self.player.start_jump();
                    kept_orbs.push(fired);
                } else {
                    kept_orbs.push(scrolled);
                }
            }
            k = k + 1;
        }
        self.orbs = kept_orbs;
        let ghost orbs_done: Seq<Orb> = self.orbs@;

        let ghost p_spikes_start: Player = self.player;
        let ghost spikes0: Seq<Spike> = self.spikes@;
        let mut kept_spikes: Vec<Spike> = Vec::new();
        let spikes_len: usize = self.spikes.len();
        let mut j: usize = 0;
        while j < spikes_len
            invariant
                0 <= j <= spikes_len,
                spikes_len == self.spikes@.len(),
                self.spikes@ == spikes0,
                forall|i: int| 0 <= i < spikes0.len() ==> (#[trigger] spikes0[i]).wf(),
                self.player.wf(),
                self.player == spikes_phase(p_spikes_start, spikes0, j as int).0,
                kept_spikes@ == spikes_phase(p_spikes_start, spikes0, j as int).1,
                forall|i: int| 0 <= i < kept_spikes@.len() ==> (#[trigger] kept_spikes@[i]).wf(),
                g0.wf(),
                self.orbs@ == orbs_done,
                forall|i: int| 0 <= i < orbs_done.len() ==> (#[trigger] orbs_done[i]).wf(),
                self.blocks@ == g0.blocks@,
                self.frozen == g0.frozen,
                self.victory == g0.victory,
                self.attempt_count == g0.attempt_count,
            decreases spikes_len - j,
        {
            let spike: Spike = self.spikes[j];
            if self.player.crashed {
                kept_spikes.push(spike);
            } else {
                let scrolled: Spike = Spike {
                    pos: Vector { x: clamped_add(spike.pos.x, -self.player.vel.x), y: spike.pos.y },
                    ..spike
                };
                proof {
                    assert(scrolled == scrolled_spike(spikes0[j as int], self.player.vel.x as int));
                }
                if scrolled.pos.x + scrolled.size.x / 2 <= 0 {
                    // gone
                } else {
                    proof {
                        assert(scrolled.wf());
                    }
                    self.player.check_spike_crash(&scrolled);
                    kept_spikes.push(scrolled);
                }
            }
            j = j + 1;
        }
        self.spikes = kept_spikes;
        let ghost spikes_done: Seq<Spike> = self.spikes@;
        if self.player.crashed {
            return;
        }

        let ghost p_blocks_start: Player = self.player;
        let ghost blocks0: Seq<Block> = self.blocks@;
        let mut kept_blocks: Vec<Block> = Vec::new();
        let blocks_len: usize = self.blocks.len();
        let mut i: usize = 0;
        while i < blocks_len
            invariant
                0 <= i <= blocks_len,
                blocks_len == self.blocks@.len(),
                self.blocks@ == blocks0,
                forall|n: int| 0 <= n < blocks0.len() ==> (#[trigger] blocks0[n]).wf(),
                self.player.wf(),
                self.player == blocks_phase(p_blocks_start, blocks0, i as int).0,
                kept_blocks@ == blocks_phase(p_blocks_start, blocks0, i as int).1,
                forall|n: int| 0 <= n < kept_blocks@.len() ==> (#[trigger] kept_blocks@[n]).wf(),
                g0.wf(),
                self.orbs@ == orbs_done,
                forall|n: int| 0 <= n < orbs_done.len() ==> (#[trigger] orbs_done[n]).wf(),
                self.spikes@ == spikes_done,
                forall|n: int| 0 <= n < spikes_done.len() ==> (#[trigger] spikes_done[n]).wf(),
                self.frozen == g0.frozen,
                self.victory == g0.victory,
                self.attempt_count == g0.attempt_count,
            decreases blocks_len - i,
        {
            let block: Block = self.blocks[i];
            if self.player.crashed {
                kept_blocks.push(block);
            } else {
                let scrolled: Block = Block {
                    pos: Vector { x: clamped_add(block.pos.x, -self.player.vel.x), y: block.pos.y },
                    ..block
                };
                proof {
                    assert(scrolled == scrolled_block(blocks0[i as int], self.player.vel.x as int));
                }
                if scrolled.pos.x + scrolled.size.x <= 0 {
                    // gone
                } else {
                    proof {
                        assert(scrolled.wf());
                    }
                    match self.player.on_block(&scrolled) {
                        SurfaceResult::OnSurface(y) => {
                            self.player.grounded = true;
                            self.player.jump = Vector::new(JUMP_SENTINEL, JUMP_SENTINEL);
                            self.player.vel.y = 0;
                            self.player.pos.y = clamped(y);
                        },
                        SurfaceResult::NotOnSurface => {},
                    }
                    self.player.check_block_crash(&scrolled);
                    kept_blocks.push(scrolled);
                }
            }
            i = i + 1;
        }
        self.blocks = kept_blocks;
        if self.player.crashed {
            return;
        }

        if self.player.grounded && self.player.jumping {
            self.player.start_jump();
        }
        let win: bool = self.blocks.len() == 0 && self.spikes.len() == 0 && self.orbs.len() == 0;
        self.victory = win;
        self.frozen = win;
    }
}

/// Every block scrolled left by `dx` once, those whose trailing edge has
/// reached the left boundary dropped, the rest kept in their original
/// relative order.
pub open spec fn pruned_blocks(blocks: Seq<Block>, dx: int) -> Seq<Block>
    decreases blocks.len(),
{
    if blocks.len() == 0 {
        Seq::empty()
    } else {
        let rest = pruned_blocks(blocks.drop_last(), dx);
        let b = scrolled_block(blocks.last(), dx);
        if block_gone(b) {
            rest
        } else {
            rest.push(b)
        }
    }
}

/// Every spike scrolled left by `dx` once, those gone past the boundary
/// dropped, the rest kept in order.
pub open spec fn pruned_spikes(spikes: Seq<Spike>, dx: int) -> Seq<Spike>
    decreases spikes.len(),
{
    if spikes.len() == 0 {
        Seq::empty()
    } else {
        let rest = pruned_spikes(spikes.drop_last(), dx);
        let s = scrolled_spike(spikes.last(), dx);
        if spike_gone(s) {
            rest
        } else {
            rest.push(s)
        }
    }
}

/// Every orb scrolled left by `dx` once, those gone past the boundary
/// dropped, the rest kept in order.
pub open spec fn pruned_orbs(orbs: Seq<Orb>, dx: int) -> Seq<Orb>
    decreases orbs.len(),
{
    if orbs.len() == 0 {
        Seq::empty()
    } else {
        let rest = pruned_orbs(orbs.drop_last(), dx);
        let o = scrolled_orb(orbs.last(), dx);
        if orb_gone(o) {
            rest
        } else {
            rest.push(o)
        }
    }
}

/// The player's horizontal speed never changes within a tick's phases.
proof fn lemma_orbs_phase_vel(p: Player, orbs: Seq<Orb>, n: int)
    ensures
        orbs_phase(p, orbs, n).0.vel.x == p.vel.x,
    decreases n,
{
    if n > 0 {
        lemma_orbs_phase_vel(p, orbs, n - 1);
    }
}

proof fn lemma_spikes_phase_vel(p: Player, spikes: Seq<Spike>, n: int)
    ensures
        spikes_phase(p, spikes, n).0.vel.x == p.vel.x,
    decreases n,
{
    if n > 0 {
        lemma_spikes_phase_vel(p, spikes, n - 1);
    }
}

proof fn lemma_blocks_phase_vel(p: Player, blocks: Seq<Block>, n: int)
    ensures
        blocks_phase(p, blocks, n).0.vel.x == p.vel.x,
    decreases n,
{
    if n > 0 {
        lemma_blocks_phase_vel(p, blocks, n - 1);
    }
}

/// Pruning blocks neither skips nor doubles an entity: as long as no
/// crash cuts the pass short, the kept blocks are exactly the scrolled
/// blocks that are still in the world, once each, in their original
/// relative order — whatever else the pass does to the player.
pub proof fn lemma_blocks_phase_keeps_order(p: Player, blocks: Seq<Block>, n: int)
    requires
        0 <= n <= blocks.len(),
        !blocks_phase(p, blocks, n).0.crashed,
    ensures
        blocks_phase(p, blocks, n).1 == pruned_blocks(blocks.take(n), p.vel.x as int),
    decreases n,
{
    if n > 0 {
        let prev = blocks_phase(p, blocks, n - 1);
        assert(!prev.0.crashed);
        lemma_blocks_phase_keeps_order(p, blocks, n - 1);
        lemma_blocks_phase_vel(p, blocks, n - 1);
        assert(blocks.take(n).drop_last() =~= blocks.take(n - 1));
        assert(blocks.take(n).last() == blocks[n - 1]);
    }
}

/// Pruning spikes neither skips nor doubles an entity: as long as no
/// crash cuts the pass short, the kept spikes are exactly the scrolled
/// spikes still in the world, once each, in order.
pub proof fn lemma_spikes_phase_keeps_order(p: Player, spikes: Seq<Spike>, n: int)
    requires
        0 <= n <= spikes.len(),
        !spikes_phase(p, spikes, n).0.crashed,
    ensures
        spikes_phase(p, spikes, n).1 == pruned_spikes(spikes.take(n), p.vel.x as int),
    decreases n,
{
    if n > 0 {
        let prev = spikes_phase(p, spikes, n - 1);
        assert(!prev.0.crashed);
        lemma_spikes_phase_keeps_order(p, spikes, n - 1);
        lemma_spikes_phase_vel(p, spikes, n - 1);
        assert(spikes.take(n).drop_last() =~= spikes.take(n - 1));
        assert(spikes.take(n).last() == spikes[n - 1]);
    }
}

/// Pruning orbs neither skips nor doubles an entity: the kept orbs stand
/// where the scrolled surviving orbs stand, once each, in order; firing
/// can set an orb's `activated` flag but never clears one.
pub proof fn lemma_orbs_phase_keeps_order(p: Player, orbs: Seq<Orb>, n: int)
    requires
        0 <= n <= orbs.len(),
    ensures
        orbs_phase(p, orbs, n).1.len() == pruned_orbs(orbs.take(n), p.vel.x as int).len(),
        forall|i: int|
            0 <= i < orbs_phase(p, orbs, n).1.len() ==> {
                let kept = #[trigger] orbs_phase(p, orbs, n).1[i];
                let site = pruned_orbs(orbs.take(n), p.vel.x as int)[i];
                kept.pos == site.pos && kept.d == site.d && (site.activated ==> kept.activated)
            },
    decreases n,
{
    if n > 0 {
        lemma_orbs_phase_keeps_order(p, orbs, n - 1);
        lemma_orbs_phase_vel(p, orbs, n - 1);
        assert(orbs.take(n).drop_last() =~= orbs.take(n - 1));
        assert(orbs.take(n).last() == orbs[n - 1]);
    }
}

/// A spent orb never fires again: against an activated orb the step
/// returns the player and the orb unchanged, even when the player
/// overlaps it with the jump input held.
pub proof fn lemma_orb_one_shot(p: Player, o: Orb)
    requires
        o.activated,
    ensures
        orb_step(p, o) == (p, o),
{
}

proof fn lemma_orbs_phase_keeps_resting(p: Player, orbs: Seq<Orb>, n: int)
    requires
        resting_invariant(p),
    ensures
        resting_invariant(orbs_phase(p, orbs, n).0),
    decreases n,
{
    if n > 0 {
        lemma_orbs_phase_keeps_resting(p, orbs, n - 1);
    }
}

proof fn lemma_spikes_phase_keeps_resting(p: Player, spikes: Seq<Spike>, n: int)
    requires
        resting_invariant(p),
    ensures
        resting_invariant(spikes_phase(p, spikes, n).0),
    decreases n,
{
    if n > 0 {
        lemma_spikes_phase_keeps_resting(p, spikes, n - 1);
    }
}

proof fn lemma_blocks_phase_keeps_resting(p: Player, blocks: Seq<Block>, n: int)
    requires
        resting_invariant(p),
    ensures
        resting_invariant(blocks_phase(p, blocks, n).0),
    decreases n,
{
    if n > 0 {
        lemma_blocks_phase_keeps_resting(p, blocks, n - 1);
    }
}

/// A tick preserves the resting invariant: the player comes out of every
/// tick either grounded with the sentinel anchor or airborne with a live
/// one.  Every transition that grounds the player installs the sentinel,
/// every transition that installs a real anchor lifts the player off the
/// ground, and a player that merely stays at rest stays grounded.
pub proof fn lemma_tick_keeps_resting_invariant(g: Game)
    requires
        resting_invariant(g.player),
    ensures
        resting_invariant(tick(g).player),
{
    let p1 = g.player.integrated().ground_snapped();
    lemma_orbs_phase_keeps_resting(p1, g.orbs@, g.orbs@.len() as int);
    let p2 = orbs_phase(p1, g.orbs@, g.orbs@.len() as int).0;
    lemma_spikes_phase_keeps_resting(p2, g.spikes@, g.spikes@.len() as int);
    let p3 = spikes_phase(p2, g.spikes@, g.spikes@.len() as int).0;
    if !p3.crashed {
        lemma_blocks_phase_keeps_resting(p3, g.blocks@, g.blocks@.len() as int);
    }
}

/// A crash cuts the tick short: when the spike pass ends crashed, the
/// blocks are not even scrolled and victory is not evaluated; when the
/// block pass ends crashed, victory is not evaluated either.  The world
/// freezes exactly as it stood at the moment of death.
pub proof fn lemma_crash_stops_tick(g: Game)
    ensures
        ({
            let p1 = g.player.integrated().ground_snapped();
            let p2 = orbs_phase(p1, g.orbs@, g.orbs@.len() as int).0;
            let p3 = spikes_phase(p2, g.spikes@, g.spikes@.len() as int).0;
            let p4 = blocks_phase(p3, g.blocks@, g.blocks@.len() as int).0;
            &&& (p3.crashed ==> tick(g).player == p3 && tick(g).blocks == g.blocks@
                && tick(g).victory == g.victory && tick(g).frozen == g.frozen)
            &&& (!p3.crashed && p4.crashed ==> tick(g).player == p4
                && tick(g).victory == g.victory && tick(g).frozen == g.frozen)
        }),
{
}

/// A tick the player survives wins exactly when all three obstacle
/// collections are empty as the tick closes: emptying them one at a time
/// triggers nothing until the last obstacle is gone, and `victory` and
/// `frozen` rise together.
pub proof fn lemma_victory_iff_all_empty(g: Game)
    ensures
        !tick(g).player.crashed ==> tick(g).victory == tick(g).frozen,
        !tick(g).player.crashed ==> (tick(g).victory <==> (tick(g).blocks.len() == 0
            && tick(g).spikes.len() == 0 && tick(g).orbs.len() == 0)),
{
}

} // verus!
