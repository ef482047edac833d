//! The session state and the once-per-frame entry point.
//!
//! A `World` owns one session: the player, the live hazard and projectile
//! sets, the counters and the game mode.  `advance` runs one frame: it
//! consumes the frame's inputs, its duration and the spawner's random draws
//! as plain values, and returns the frame's outward effects (a quit request,
//! a high score to persist, and the explosions to show).

use vstd::prelude::*;
use crate::entities::{
    dims_ok, hazard_ok, player_ok, projectile_ok, Explosion, Hazard, Player, Projectile,
    COORD_BOUND, HAZARD_SIZE_MAX, HAZARD_SIZE_MIN, HAZARD_SPEED_MAX, HAZARD_SPEED_MIN,
    MAX_FRAME_MS, MAX_SIZE, MS_PER_SECOND, PLAYER_RADIUS, PLAYER_SPEED, PROJECTILE_SIZE,
    PROJECTILE_SPEED,
};
use crate::geom::{circle_box_overlap, clamp_spec};
use crate::score::{max_u32, sat_add_u32};
use crate::sim::{
    collide_from, hazard_moved, lemma_collide_from_props, live_hazards,
    live_projectiles, projectile_moved, resolve_collisions, travel,
};

verus! {

/// A spawn roll of at least this value (out of [0, 99]) produces a hazard:
/// a five percent chance per frame.
pub const SPAWN_THRESHOLD: u32 = 95;

/// The spawn roll is a uniform draw from [0, `SPAWN_ROLL_MAX`].
pub const SPAWN_ROLL_MAX: u32 = 99;

/// The top-level mode of the game.
#[derive(Clone, Copy, PartialEq, Eq, Structural, Debug)]
pub enum GameMode {
    MainMenu,
    Playing,
    Paused,
    GameOver,
}

/// One frame's worth of input, as level- and edge-triggered booleans.
#[derive(Clone, Copy, Debug)]
pub struct FrameInput {
    pub up: bool,
    pub down: bool,
    pub left: bool,
    pub right: bool,
    pub fire: bool,
    pub pause: bool,
    pub resume: bool,
    pub start: bool,
    pub restart: bool,
    pub quit: bool,
}

/// The spawner's random draws for one frame, supplied by the caller so that
/// the core stays deterministic.
#[derive(Clone, Copy, Debug)]
pub struct SpawnDraws {
    /// Uniform draw from [0, `SPAWN_ROLL_MAX`].
    pub roll: u32,
    /// Uniform draw from [`HAZARD_SIZE_MIN`, `HAZARD_SIZE_MAX`).
    pub size: i64,
    /// Uniform draw from [`HAZARD_SPEED_MIN`, `HAZARD_SPEED_MAX`).
    pub speed: i64,
    /// Uniform draw placing the whole square within the playfield width.
    pub x: i64,
}

/// The outward effects of one frame.
pub struct FrameEvents {
    /// The player asked to leave the game.
    pub quit: bool,
    /// A high score to write to the persistent store, if the session ended
    /// with the score matching it.
    pub persist_high_score: Option<u32>,
    /// One entry per hazard destroyed this frame.
    pub explosions: Vec<Explosion>,
}

/// The mathematical value of a `World`.
#[verifier::ext_equal]
pub ghost struct WorldView {
    pub mode: GameMode,
    pub player: Player,
    pub hazards: Seq<Hazard>,
    pub projectiles: Seq<Projectile>,
    pub score: u32,
    pub high_score: u32,
    pub screen_w: i64,
    pub screen_h: i64,
}

/// The mathematical value of a `FrameEvents`.
#[verifier::ext_equal]
pub ghost struct FrameEffects {
    pub quit: bool,
    pub persist_high_score: Option<u32>,
    pub explosions: Seq<Explosion>,
}

/// One frame's result: the new world and its outward effects.
#[verifier::ext_equal]
pub ghost struct FrameStep {
    pub world: WorldView,
    pub effects: FrameEffects,
}

/// One game session.
pub struct World {
    pub mode: GameMode,
    pub player: Player,
    pub hazards: Vec<Hazard>,
    pub projectiles: Vec<Projectile>,
    pub score: u32,
    pub high_score: u32,
    pub screen_w: i64,
    pub screen_h: i64,
}

impl View for World {
    type V = WorldView;

    open spec fn view(&self) -> WorldView {
        WorldView {
            mode: self.mode,
            player: self.player,
            hazards: self.hazards@,
            projectiles: self.projectiles@,
            score: self.score,
            high_score: self.high_score,
            screen_w: self.screen_w,
            screen_h: self.screen_h,
        }
    }
}

impl View for FrameEvents {
    type V = FrameEffects;

    open spec fn view(&self) -> FrameEffects {
        FrameEffects {
            quit: self.quit,
            persist_high_score: self.persist_high_score,
            explosions: self.explosions@,
        }
    }
}

/// A well-formed world: dimensions and entities within bounds, the player
/// inside the playfield, and the high score no smaller than the score.
pub open spec fn view_wf(v: WorldView) -> bool {
    &&& dims_ok(v.screen_w, v.screen_h)
    &&& player_ok(v.player, v.screen_w, v.screen_h)
    &&& forall|i: int| 0 <= i < v.hazards.len() ==> hazard_ok(#[trigger] v.hazards[i])
    &&& forall|i: int| 0 <= i < v.projectiles.len() ==> projectile_ok(#[trigger] v.projectiles[i])
    &&& v.score <= v.high_score
}

/// Valid spawner draws for a playfield of the given width.
pub open spec fn spawn_draws_ok(d: SpawnDraws, screen_w: i64) -> bool {
    &&& d.roll <= SPAWN_ROLL_MAX
    &&& HAZARD_SIZE_MIN <= d.size < HAZARD_SIZE_MAX
    &&& HAZARD_SPEED_MIN <= d.speed < HAZARD_SPEED_MAX
    &&& d.size <= 2 * d.x
    &&& 2 * d.x <= 2 * screen_w - d.size
}

/// The hazard the spawner creates from its draws: centred at the drawn x,
/// its square just above the top edge, not destroyed.
pub open spec fn spawned_hazard(d: SpawnDraws) -> Hazard {
    Hazard { x: d.x, y: (0 - d.size) as i64, size: d.size, speed: d.speed, destroyed: false }
}

/// The projectile fired from the player's position.
pub open spec fn fired_projectile(p: Player) -> Projectile {
    Projectile { x: p.x, y: p.y, size: PROJECTILE_SIZE, speed: PROJECTILE_SPEED, destroyed: false }
}

/// The player after one frame of held movement keys, clamped into the
/// playfield.
pub open spec fn player_step(p: Player, inp: FrameInput, dt: u32, screen_w: i64, screen_h: i64) -> Player {
    let m = travel(PLAYER_SPEED as int, dt);
    let x1 = p.x + (if inp.right { m } else { 0 }) - (if inp.left { m } else { 0 });
    let y1 = p.y + (if inp.down { m } else { 0 }) - (if inp.up { m } else { 0 });
    Player {
        x: clamp_spec(x1, p.radius as int, screen_w - 2 * p.radius) as i64,
        y: clamp_spec(y1, p.radius as int, screen_h - 2 * p.radius) as i64,
        radius: p.radius,
    }
}

/// Some live hazard overlaps the player's circle.
pub open spec fn player_hit(hs: Seq<Hazard>, p: Player) -> bool {
    exists|i: int|
        0 <= i < hs.len() && !(#[trigger] hs[i]).destroyed && circle_box_overlap(
            p.x as int,
            p.y as int,
            p.radius as int,
            hs[i].x as int,
            hs[i].y as int,
            hs[i].size as int,
        )
}

/// The world after an entity reset: entities cleared, player centred, score
/// zero; mode, high score and dimensions untouched.
pub open spec fn reset_view(v: WorldView) -> WorldView {
    WorldView {
        player: Player {
            x: (v.screen_w / 2) as i64,
            y: (v.screen_h / 2) as i64,
            radius: v.player.radius,
        },
        hazards: Seq::empty(),
        projectiles: Seq::empty(),
        score: 0,
        ..v
    }
}

/// A frame with no outward effects.
pub open spec fn no_effects() -> FrameEffects {
    FrameEffects { quit: false, persist_high_score: None, explosions: Seq::empty() }
}

/// A frame spent on the main menu: quit leaves the game, start resets the
/// entities and begins play, anything else changes nothing.
pub open spec fn menu_step(v: WorldView, inp: FrameInput) -> FrameStep {
    if inp.quit {
        FrameStep { world: v, effects: FrameEffects { quit: true, ..no_effects() } }
    } else if inp.start {
        FrameStep {
            world: WorldView { mode: GameMode::Playing, ..reset_view(v) },
            effects: no_effects(),
        }
    } else {
        FrameStep { world: v, effects: no_effects() }
    }
}

/// A frame spent paused: resume returns to play, quit leaves the game,
/// anything else changes nothing; the simulation stays frozen.
pub open spec fn paused_step(v: WorldView, inp: FrameInput) -> FrameStep {
    FrameStep {
        world: WorldView {
            mode: if inp.resume {
                GameMode::Playing
            } else {
                GameMode::Paused
            },
            ..v
        },
        effects: FrameEffects { quit: inp.quit, ..no_effects() },
    }
}

/// A frame spent on the game-over screen: restart resets the entities and
/// begins a new session, anything else changes nothing.
pub open spec fn game_over_step(v: WorldView, inp: FrameInput) -> FrameStep {
    if inp.restart {
        FrameStep {
            world: WorldView { mode: GameMode::Playing, ..reset_view(v) },
            effects: no_effects(),
        }
    } else {
        FrameStep { world: v, effects: no_effects() }
    }
}

/// A frame of play: spawn on a high roll, move the player, fire, integrate
/// motion, prune the dead and the departed, end the session if a hazard
/// reaches the player, and let projectiles destroy hazards and score.  The
/// high score is offered for persistence exactly when the session ends with
/// the score equal to it.
pub open spec fn playing_step(v: WorldView, dt: u32, inp: FrameInput, d: SpawnDraws) -> FrameStep {
    let hs1 = if d.roll >= SPAWN_THRESHOLD {
        v.hazards.push(spawned_hazard(d))
    } else {
        v.hazards
    };
    let pl = player_step(v.player, inp, dt, v.screen_w, v.screen_h);
    let ps1 = if inp.fire {
        v.projectiles.push(fired_projectile(pl))
    } else {
        v.projectiles
    };
    let hs2 = hs1.map_values(|h: Hazard| hazard_moved(h, dt));
    let ps2 = ps1.map_values(|p: Projectile| projectile_moved(p, dt));
    let hs3 = live_hazards(hs2, v.screen_h);
    let ps3 = live_projectiles(ps2);
    let hit = player_hit(hs3, pl);
    let o = collide_from(hs3, ps3, v.score, v.high_score, 0);
    FrameStep {
        world: WorldView {
            mode: if hit {
                GameMode::GameOver
            } else if inp.pause {
                GameMode::Paused
            } else {
                GameMode::Playing
            },
            player: pl,
            hazards: o.hazards,
            projectiles: o.projectiles,
            score: o.score,
            high_score: o.high_score,
            screen_w: v.screen_w,
            screen_h: v.screen_h,
        },
        effects: FrameEffects {
            quit: false,
            persist_high_score: if hit && v.score == v.high_score {
                Some(v.high_score)
            } else {
                None
            },
            explosions: o.explosions,
        },
    }
}

/// One frame, in any mode.  Only `Playing` runs the simulation; the other
/// modes react to their inputs alone.
pub open spec fn advance_step(v: WorldView, dt: u32, inp: FrameInput, d: SpawnDraws) -> FrameStep {
    match v.mode {
        GameMode::MainMenu => menu_step(v, inp),
        GameMode::Playing => playing_step(v, dt, inp, d),
        GameMode::Paused => paused_step(v, inp),
        GameMode::GameOver => game_over_step(v, inp),
    }
}

/// `v` clamped into `[lo, hi]`.
fn clamp_i64(v: i64, lo: i64, hi: i64) -> (r: i64)
    requires
        lo <= hi,
    ensures
        r as int == clamp_spec(v as int, lo as int, hi as int),
{
    if v < lo {
        lo
    } else if v > hi {
        hi
    } else {
        v
    }
}

/// Does any live hazard overlap the player's circle?
fn any_hazard_hits_player(hs: &Vec<Hazard>, p: &Player) -> (r: bool)
    requires
        -COORD_BOUND <= p.x <= COORD_BOUND,
        -COORD_BOUND <= p.y <= COORD_BOUND,
        0 < p.radius <= MAX_SIZE,
        forall|i: int| 0 <= i < hs@.len() ==> hazard_ok(#[trigger] hs@[i]),
    ensures
        r == player_hit(hs@, *p),
{
    let n = hs.len();
    let mut i: usize = 0;
    while i < n
        invariant
            i <= n,
            n == hs@.len(),
            -COORD_BOUND <= p.x <= COORD_BOUND,
            -COORD_BOUND <= p.y <= COORD_BOUND,
            0 < p.radius <= MAX_SIZE,
            forall|j: int| 0 <= j < n ==> hazard_ok(#[trigger] hs@[j]),
            forall|j: int|
                0 <= j < i ==> !(!(#[trigger] hs@[j]).destroyed && circle_box_overlap(
                    p.x as int,
                    p.y as int,
                    p.radius as int,
                    hs@[j].x as int,
                    hs@[j].y as int,
                    hs@[j].size as int,
                )),
        decreases n - i,
    {
        let h = hs[i];
        if !h.destroyed && crate::geom::player_vs_hazard(p, &h) {
            assert(player_hit(hs@, *p));
            return true;
        }
        i = i + 1;
    }
    assert(!player_hit(hs@, *p)) by {
        if player_hit(hs@, *p) {
            let j = choose|j: int|
                0 <= j < hs@.len() && !(#[trigger] hs@[j]).destroyed && circle_box_overlap(
                    p.x as int,
                    p.y as int,
                    p.radius as int,
                    hs@[j].x as int,
                    hs@[j].y as int,
                    hs@[j].size as int,
                );
            assert(false);
        }
    }
    false
}

impl World {
    /// A well-formed world.
    pub open spec fn wf(&self) -> bool {
        view_wf(self@)
    }

    /// A fresh session on a playfield of the given dimensions, seeded with a
    /// previously persisted high score: main menu, centred player, no
    /// entities, score zero.
    pub fn new(screen_w: i64, screen_h: i64, high_score: u32) -> (w: World)
        requires
            dims_ok(screen_w, screen_h),
            4 * PLAYER_RADIUS <= screen_w,
            4 * PLAYER_RADIUS <= screen_h,
        ensures
            w@ == (WorldView {
                mode: GameMode::MainMenu,
                player: Player {
                    x: (screen_w / 2) as i64,
                    y: (screen_h / 2) as i64,
                    radius: PLAYER_RADIUS,
                },
                hazards: Seq::empty(),
                projectiles: Seq::empty(),
                score: 0,
                high_score: high_score,
                screen_w: screen_w,
                screen_h: screen_h,
            }),
            w.wf(),
    {
        let w = World {
            mode: GameMode::MainMenu,
            player: Player { x: screen_w / 2, y: screen_h / 2, radius: PLAYER_RADIUS },
            hazards: Vec::new(),
            projectiles: Vec::new(),
            score: 0,
            high_score: high_score,
            screen_w: screen_w,
            screen_h: screen_h,
        };
        proof {
            assert(w@ =~= (WorldView {
                mode: GameMode::MainMenu,
                player: Player {
                    x: (screen_w / 2) as i64,
                    y: (screen_h / 2) as i64,
                    radius: PLAYER_RADIUS,
                },
                hazards: Seq::empty(),
                projectiles: Seq::empty(),
                score: 0,
                high_score: high_score,
                screen_w: screen_w,
                screen_h: screen_h,
            }));
        }
        w
    }

    /// Clear the live entities, centre the player and zero the score for a
    /// new session; the mode, the high score and the dimensions stay.
    pub fn entity_reset(&mut self)
        requires
            old(self).wf(),
        ensures
            final(self)@ == reset_view(old(self)@),
            final(self).wf(),
    {
        self.hazards = Vec::new();
        self.projectiles = Vec::new();
        self.player = Player {
            x: self.screen_w / 2,
            y: self.screen_h / 2,
            radius: self.player.radius,
        };
        self.score = 0;
        proof {
            assert(self@ =~= reset_view(old(self)@));
        }
    }

    /// Add points to the score, saturating, and keep the high score at least
    /// as large.
    pub fn add_score(&mut self, amount: u32)
        requires
            old(self).wf(),
        ensures
            final(self)@ == (WorldView {
                score: sat_add_u32(old(self)@.score, amount),
                high_score: max_u32(
                    old(self)@.high_score,
                    sat_add_u32(old(self)@.score, amount),
                ),
                ..old(self)@
            }),
            final(self).wf(),
    {
        crate::score::bump_score(&mut self.score, &mut self.high_score, amount);
        proof {
            assert(self@ =~= (WorldView {
                score: sat_add_u32(old(self)@.score, amount),
                high_score: max_u32(
                    old(self)@.high_score,
                    sat_add_u32(old(self)@.score, amount),
                ),
                ..old(self)@
            }));
        }
    }

    /// Zero the score for a new session; the high score is untouched.
    pub fn reset_session(&mut self)
        requires
            old(self).wf(),
        ensures
            final(self)@ == (WorldView { score: 0, ..old(self)@ }),
            final(self).wf(),
    {
        self.score = 0;
        proof {
            assert(self@ =~= (WorldView { score: 0, ..old(self)@ }));
        }
    }

    /// Run one frame: `dt` milliseconds of simulated time, the frame's
    /// inputs, and the spawner's random draws.  Returns the frame's outward
    /// effects.  The frame behaves exactly as `advance_step` describes.
    pub fn advance(&mut self, dt: u32, input: FrameInput, draws: SpawnDraws) -> (ev: FrameEvents)
        requires
            old(self).wf(),
            dt <= MAX_FRAME_MS,
            old(self).mode == GameMode::Playing ==> spawn_draws_ok(draws, old(self).screen_w),
        ensures
            final(self)@ == advance_step(old(self)@, dt, input, draws).world,
            ev@ == advance_step(old(self)@, dt, input, draws).effects,
            final(self).wf(),
    {
        let ghost v0 = old(self)@;
        match self.mode {
            GameMode::MainMenu => {
                if input.quit {
                    let ev = FrameEvents {
                        quit: true,
                        persist_high_score: None,
                        explosions: Vec::new(),
                    };
                    assert(ev@ =~= menu_step(v0, input).effects);
                    ev
                } else if input.start {
                    self.entity_reset();
                    self.mode = GameMode::Playing;
                    let ev = FrameEvents {
                        quit: false,
                        persist_high_score: None,
                        explosions: Vec::new(),
                    };
                    proof {
                        assert(self@ =~= menu_step(v0, input).world);
                        assert(ev@ =~= menu_step(v0, input).effects);
                    }
                    ev
                } else {
                    let ev = FrameEvents {
                        quit: false,
                        persist_high_score: None,
                        explosions: Vec::new(),
                    };
                    assert(ev@ =~= menu_step(v0, input).effects);
                    ev
                }
            },
            GameMode::Paused => {
                if input.resume {
                    self.mode = GameMode::Playing;
                }
                let ev = FrameEvents {
                    quit: input.quit,
                    persist_high_score: None,
                    explosions: Vec::new(),
                };
                proof {
                    assert(self@ =~= paused_step(v0, input).world);
                    assert(ev@ =~= paused_step(v0, input).effects);
                }
                ev
            },
            GameMode::GameOver => {
                if input.restart {
                    self.entity_reset();
                    self.mode = GameMode::Playing;
                }
                let ev = FrameEvents {
                    quit: false,
                    persist_high_score: None,
                    explosions: Vec::new(),
                };
                proof {
                    assert(self@ =~= game_over_step(v0, input).world);
                    assert(ev@ =~= game_over_step(v0, input).effects);
                }
                ev
            },
            GameMode::Playing => {
                // Spawner
                if draws.roll >= SPAWN_THRESHOLD {
                    self.hazards.push(
                        Hazard {
                            x: draws.x,
                            y: -draws.size,
                            size: draws.size,
                            speed: draws.speed,
                            destroyed: false,
                        },
                    );
                }
                let ghost hs1 = self.hazards@;
                proof {
                    assert(hs1 =~= (if draws.roll >= SPAWN_THRESHOLD {
                        v0.hazards.push(spawned_hazard(draws))
                    } else {
                        v0.hazards
                    }));
                    assert(forall|k: int| 0 <= k < hs1.len() ==> hazard_ok(#[trigger] hs1[k]));
                }
                // Player movement
                proof {
                    crate::sim::lemma_travel_bounds(PLAYER_SPEED as int, dt);
                }
                let m: i64 = PLAYER_SPEED * (dt as i64) / MS_PER_SECOND;
                let mut x1: i64 = self.player.x;
                let mut y1: i64 = self.player.y;
                if input.right {
                    x1 = x1 + m;
                }
                if input.left {
                    x1 = x1 - m;
                }
                if input.down {
                    y1 = y1 + m;
                }
                if input.up {
                    y1 = y1 - m;
                }
                let px = clamp_i64(x1, self.player.radius, self.screen_w - 2 * self.player.radius);
                let py = clamp_i64(y1, self.player.radius, self.screen_h - 2 * self.player.radius);
                self.player = Player { x: px, y: py, radius: self.player.radius };
                let ghost pl = player_step(v0.player, input, dt, v0.screen_w, v0.screen_h);
                proof {
                    assert(self.player == pl);
                    assert(player_ok(pl, v0.screen_w, v0.screen_h));
                }
                // Fire
                if input.fire {
                    self.projectiles.push(
                        Projectile {
                            x: self.player.x,
                            y: self.player.y,
                            size: PROJECTILE_SIZE,
                            speed: PROJECTILE_SPEED,
                            destroyed: false,
                        },
                    );
                }
                let ghost ps1 = self.projectiles@;
                proof {
                    assert(ps1 =~= (if input.fire {
                        v0.projectiles.push(fired_projectile(pl))
                    } else {
                        v0.projectiles
                    }));
                    assert(forall|k: int|
                        0 <= k < ps1.len() ==> projectile_ok(#[trigger] ps1[k]));
                }
                // Motion
                crate::sim::integrate_hazards(&mut self.hazards, dt);
                crate::sim::integrate_projectiles(&mut self.projectiles, dt);
                let ghost hs2 = self.hazards@;
                let ghost ps2 = self.projectiles@;
                proof {
                    assert(forall|k: int|
                        0 <= k < hs2.len() ==> 0 < (#[trigger] hs2[k]).size <= MAX_SIZE) by {
                        assert(forall|k: int|
                            0 <= k < hs1.len() ==> #[trigger] hs2[k] == hazard_moved(hs1[k], dt));
                    }
                    assert(forall|k: int|
                        0 <= k < ps2.len() ==> 0 < (#[trigger] ps2[k]).size <= MAX_SIZE) by {
                        assert(forall|k: int|
                            0 <= k < ps1.len() ==> #[trigger] ps2[k] == projectile_moved(
                                ps1[k],
                                dt,
                            ));
                    }
                }
                // Lifecycle
                crate::sim::prune_hazards(&mut self.hazards, self.screen_h);
                crate::sim::prune_projectiles(&mut self.projectiles);
                let ghost hs3 = self.hazards@;
                let ghost ps3 = self.projectiles@;
                proof {
                    assert(hs3 == live_hazards(hs2, v0.screen_h));
                    assert(ps3 == live_projectiles(ps2));
                    assert forall|k: int| 0 <= k < hs3.len() implies hazard_ok(
                        #[trigger] hs3[k],
                    ) by {
                        let e = hs3[k];
                        assert(hs2.contains(e));
                        let n = choose|n: int| 0 <= n < hs2.len() && hs2[n] == e;
                        assert(hs2[n] == hazard_moved(hs1[n], dt));
                        assert(hazard_ok(hs1[n]));
                        crate::sim::lemma_travel_bounds(hs1[n].speed as int, dt);
                        assert(e.y < v0.screen_h + e.size);
                    }
                    assert forall|k: int| 0 <= k < ps3.len() implies projectile_ok(
                        #[trigger] ps3[k],
                    ) by {
                        let e = ps3[k];
                        assert(ps2.contains(e));
                        let n = choose|n: int| 0 <= n < ps2.len() && ps2[n] == e;
                        assert(ps2[n] == projectile_moved(ps1[n], dt));
                        assert(projectile_ok(ps1[n]));
                        crate::sim::lemma_travel_bounds(ps1[n].speed as int, dt);
                        assert(e.y > -e.size);
                    }
                }
                // Player collision ends the session; decide persistence from
                // the counters as they stand before the projectile pass.
                let hit = any_hazard_hits_player(&self.hazards, &self.player);
                let persist: Option<u32> = if hit && self.score == self.high_score {
                    Some(self.high_score)
                } else {
                    None
                };
                // Projectile collisions
                let expl = resolve_collisions(
                    &mut self.hazards,
                    &mut self.projectiles,
                    &mut self.score,
                    &mut self.high_score,
                );
                proof {
                    lemma_collide_from_props(hs3, ps3, v0.score, v0.high_score, 0);
                    let o = collide_from(hs3, ps3, v0.score, v0.high_score, 0);
                    assert(forall|k: int|
                        0 <= k < o.hazards.len() ==> hazard_ok(#[trigger] o.hazards[k]));
                    assert(forall|k: int|
                        0 <= k < o.projectiles.len() ==> projectile_ok(
                            #[trigger] o.projectiles[k],
                        ));
                }
                // Mode transition
                if hit {
                    self.mode = GameMode::GameOver;
                } else if input.pause {
                    self.mode = GameMode::Paused;
                }
                let ev = FrameEvents { quit: false, persist_high_score: persist, explosions: expl };
                proof {
                    assert(self@ =~= playing_step(v0, dt, input, draws).world);
                    assert(ev@ =~= playing_step(v0, dt, input, draws).effects);
                }
                ev
            },
        }
    }
}

/// The high score never falls below the score in a well-formed world.
pub proof fn lemma_high_score_dominates(w: &World)
    requires
        w.wf(),
    ensures
        w.score <= w.high_score,
{
}

/// An entity reset is idempotent: resetting twice yields the same state as
/// resetting once.
pub proof fn lemma_reset_idempotent(v: WorldView)
    ensures
        reset_view(reset_view(v)) == reset_view(v),
{
    assert(reset_view(reset_view(v)) =~= reset_view(v));
}

/// Starting a session — from the main menu or from the game-over screen —
/// resets the score to exactly zero and clears the entities, and never
/// touches the high score.
pub proof fn lemma_new_game_resets_score(v: WorldView, dt: u32, inp: FrameInput, d: SpawnDraws)
    requires
        (v.mode == GameMode::MainMenu && !inp.quit && inp.start) || (v.mode == GameMode::GameOver
            && inp.restart),
    ensures
        ({
            let w2 = advance_step(v, dt, inp, d).world;
            &&& w2.mode == GameMode::Playing
            &&& w2.score == 0
            &&& w2.high_score == v.high_score
            &&& w2.hazards.len() == 0
            &&& w2.projectiles.len() == 0
        }),
{
}

/// From `Paused`, only the resume and quit inputs do anything: resume
/// returns to play, quit raises the quit flag, and every other input leaves
/// the world exactly as it was; the paused simulation never changes and
/// never emits effects.
pub proof fn lemma_paused_inert(v: WorldView, dt: u32, inp: FrameInput, d: SpawnDraws)
    requires
        v.mode == GameMode::Paused,
    ensures
        ({
            let s = advance_step(v, dt, inp, d);
            &&& s.world == (WorldView {
                mode: if inp.resume {
                    GameMode::Playing
                } else {
                    GameMode::Paused
                },
                ..v
            })
            &&& !inp.resume ==> s.world == v
            &&& s.effects.quit == inp.quit
            &&& s.effects.persist_high_score == None::<u32>
            &&& s.effects.explosions.len() == 0
        }),
{
    let s = advance_step(v, dt, inp, d);
    assert(s.world =~= (WorldView {
        mode: if inp.resume {
            GameMode::Playing
        } else {
            GameMode::Paused
        },
        ..v
    }));
    if !inp.resume {
        assert(s.world =~= v);
    }
}

} // verus!
