use sky_falls::entities::{Hazard, Player, Projectile};
use sky_falls::geom::{box_vs_box, player_vs_hazard};
use sky_falls::score::load_high_score;
use sky_falls::score::parse_high_score;
use sky_falls::world::{FrameInput, GameMode, SpawnDraws, World};

fn no_input() -> FrameInput {
    FrameInput {
        up: false,
        down: false,
        left: false,
        right: false,
        fire: false,
        pause: false,
        resume: false,
        start: false,
        restart: false,
        quit: false,
    }
}

fn idle_draws() -> SpawnDraws {
    SpawnDraws { roll: 0, size: 16_000, speed: 50_000, x: 160_000 }
}

fn playing_world() -> World {
    World {
        mode: GameMode::Playing,
        player: Player { x: 160_000, y: 120_000, radius: 16_000 },
        hazards: Vec::new(),
        projectiles: Vec::new(),
        score: 0,
        high_score: 0,
        screen_w: 320_000,
        screen_h: 240_000,
    }
}

#[test]
fn falling_hazard_reaches_player_and_ends_session() {
    // Player at (160, 120), hazard spawned at (160, -20), size 40, speed 100:
    // after 1.4 s the hazard centre is at y = -20 + 140 = 120, on top of the
    // player, and the session ends.
    let mut w = playing_world();
    w.hazards.push(Hazard { x: 160_000, y: -20_000, size: 40_000, speed: 100_000, destroyed: false });
    let ev = w.advance(1400, no_input(), idle_draws());
    assert_eq!(w.hazards[0].y, 120_000);
    assert!(matches!(w.mode, GameMode::GameOver));
    assert_eq!(ev.persist_high_score, Some(0));
    assert!(!ev.quit);
}

#[test]
fn projectile_motion_is_exact() {
    // A projectile at (100, 50) with speed 400 rises to y = 10 after 0.1 s;
    // a resting hazard at (100, 40) stays put.  At those positions the two
    // squares (sizes 20 and 5) are disjoint, so nothing is destroyed.
    let mut w = playing_world();
    w.player = Player { x: 160_000, y: 200_000, radius: 16_000 };
    w.hazards.push(Hazard { x: 100_000, y: 40_000, size: 20_000, speed: 0, destroyed: false });
    w.projectiles.push(Projectile { x: 100_000, y: 50_000, size: 5_000, speed: 400_000, destroyed: false });
    let ev = w.advance(100, no_input(), idle_draws());
    assert_eq!(w.projectiles[0].y, 10_000);
    assert_eq!(w.hazards[0].y, 40_000);
    assert!(!w.hazards[0].destroyed);
    assert!(!w.projectiles[0].destroyed);
    assert_eq!(w.score, 0);
    assert!(matches!(w.mode, GameMode::Playing));
    assert_eq!(ev.explosions.len(), 0);
}

#[test]
fn projectile_destroys_overlapping_hazard_and_scores() {
    // With a 0.05 s frame the same projectile stops at y = 30, overlapping
    // the hazard of size 20 at y = 40: both are destroyed and the score
    // grows by round(20) / 2 = 10.
    let mut w = playing_world();
    w.player = Player { x: 160_000, y: 200_000, radius: 16_000 };
    w.hazards.push(Hazard { x: 100_000, y: 40_000, size: 20_000, speed: 0, destroyed: false });
    w.projectiles.push(Projectile { x: 100_000, y: 50_000, size: 5_000, speed: 400_000, destroyed: false });
    let ev = w.advance(50, no_input(), idle_draws());
    assert_eq!(w.projectiles[0].y, 30_000);
    assert!(w.hazards[0].destroyed);
    assert!(w.projectiles[0].destroyed);
    assert_eq!(w.score, 10);
    assert_eq!(w.high_score, 10);
    assert_eq!(ev.explosions.len(), 1);
    assert_eq!(ev.explosions[0].x, 100_000);
    assert_eq!(ev.explosions[0].y, 40_000);
    assert_eq!(ev.explosions[0].magnitude, 20_000);
    assert!(matches!(w.mode, GameMode::Playing));
}

#[test]
fn one_projectile_scores_at_most_once() {
    // Two hazards overlap the same projectile; only the first is destroyed.
    let mut w = playing_world();
    w.player = Player { x: 280_000, y: 200_000, radius: 16_000 };
    w.hazards.push(Hazard { x: 100_000, y: 100_000, size: 40_000, speed: 0, destroyed: false });
    w.hazards.push(Hazard { x: 110_000, y: 100_000, size: 40_000, speed: 0, destroyed: false });
    w.projectiles.push(Projectile { x: 100_000, y: 100_000, size: 5_000, speed: 0, destroyed: false });
    let ev = w.advance(0, no_input(), idle_draws());
    assert!(w.hazards[0].destroyed);
    assert!(!w.hazards[1].destroyed);
    assert!(w.projectiles[0].destroyed);
    assert_eq!(w.score, 20);
    assert_eq!(ev.explosions.len(), 1);
}

#[test]
fn lifecycle_prunes_destroyed_and_departed() {
    let mut w = playing_world();
    w.player = Player { x: 280_000, y: 200_000, radius: 16_000 };
    w.hazards.push(Hazard { x: 50_000, y: 10_000, size: 20_000, speed: 0, destroyed: true });
    w.hazards.push(Hazard { x: 60_000, y: 290_000, size: 50_000, speed: 0, destroyed: false });
    w.hazards.push(Hazard { x: 70_000, y: 10_000, size: 20_000, speed: 0, destroyed: false });
    w.projectiles.push(Projectile { x: 50_000, y: -6_000, size: 5_000, speed: 0, destroyed: false });
    w.projectiles.push(Projectile { x: 60_000, y: 10_000, size: 5_000, speed: 0, destroyed: true });
    let _ = w.advance(0, no_input(), idle_draws());
    assert_eq!(w.hazards.len(), 1);
    assert_eq!(w.hazards[0].x, 70_000);
    assert_eq!(w.projectiles.len(), 0);
}

#[test]
fn projectile_top_exit_boundary_is_exact() {
    let mut w = playing_world();
    w.player = Player { x: 280_000, y: 200_000, radius: 16_000 };
    w.projectiles.push(Projectile { x: 50_000, y: -4_999, size: 5_000, speed: 0, destroyed: false });
    w.projectiles.push(Projectile { x: 60_000, y: -5_000, size: 5_000, speed: 0, destroyed: false });
    let _ = w.advance(0, no_input(), idle_draws());
    assert_eq!(w.projectiles.len(), 1);
    assert_eq!(w.projectiles[0].x, 50_000);
}

#[test]
fn largest_spawnable_hazard_is_worth_32_points() {
    let mut w = playing_world();
    w.player = Player { x: 280_000, y: 200_000, radius: 16_000 };
    w.hazards.push(Hazard { x: 100_000, y: 100_000, size: 63_999, speed: 0, destroyed: false });
    w.projectiles.push(Projectile { x: 100_000, y: 100_000, size: 5_000, speed: 0, destroyed: false });
    let _ = w.advance(0, no_input(), idle_draws());
    assert!(w.hazards[0].destroyed);
    assert_eq!(w.score, 32);
}

#[test]
fn high_roll_spawns_a_hazard_just_above_the_top() {
    let mut w = playing_world();
    let draws = SpawnDraws { roll: 95, size: 30_000, speed: 120_000, x: 40_000 };
    let _ = w.advance(0, no_input(), draws);
    assert_eq!(w.hazards.len(), 1);
    assert_eq!(w.hazards[0].x, 40_000);
    assert_eq!(w.hazards[0].y, -30_000);
    assert_eq!(w.hazards[0].size, 30_000);
    assert_eq!(w.hazards[0].speed, 120_000);
    assert!(!w.hazards[0].destroyed);
}

#[test]
fn low_roll_spawns_nothing() {
    let mut w = playing_world();
    let draws = SpawnDraws { roll: 94, size: 30_000, speed: 120_000, x: 40_000 };
    let _ = w.advance(0, no_input(), draws);
    assert_eq!(w.hazards.len(), 0);
}

#[test]
fn fire_input_launches_projectile_from_player() {
    let mut w = playing_world();
    let mut input = no_input();
    input.fire = true;
    let _ = w.advance(0, input, idle_draws());
    assert_eq!(w.projectiles.len(), 1);
    assert_eq!(w.projectiles[0].x, 160_000);
    assert_eq!(w.projectiles[0].y, 120_000);
    assert_eq!(w.projectiles[0].size, 5_000);
    assert_eq!(w.projectiles[0].speed, 400_000);
}

#[test]
fn movement_keys_move_and_clamp_the_player() {
    let mut w = playing_world();
    let mut input = no_input();
    input.right = true;
    input.up = true;
    // 200 units/s for 0.25 s moves 50 units.
    let _ = w.advance(250, input, idle_draws());
    assert_eq!(w.player.x, 210_000);
    assert_eq!(w.player.y, 70_000);
    // A long-held key runs into the playfield edge and stops there.
    let _ = w.advance(10_000, input, idle_draws());
    assert_eq!(w.player.x, 320_000 - 32_000);
    assert_eq!(w.player.y, 16_000);
}

#[test]
fn start_from_menu_resets_and_plays() {
    let mut w = World::new(320_000, 240_000, 9);
    w.score = 4;
    w.hazards.push(Hazard { x: 50_000, y: 10_000, size: 20_000, speed: 60_000, destroyed: false });
    let mut input = no_input();
    input.start = true;
    let ev = w.advance(16, input, idle_draws());
    assert!(matches!(w.mode, GameMode::Playing));
    assert_eq!(w.score, 0);
    assert_eq!(w.high_score, 9);
    assert_eq!(w.hazards.len(), 0);
    assert_eq!(w.projectiles.len(), 0);
    assert_eq!(w.player.x, 160_000);
    assert_eq!(w.player.y, 120_000);
    assert!(!ev.quit);
    assert_eq!(ev.persist_high_score, None);
}

#[test]
fn restart_after_game_over_resets_score_not_high_score() {
    let mut w = playing_world();
    w.mode = GameMode::GameOver;
    w.score = 21;
    w.high_score = 33;
    w.projectiles.push(Projectile { x: 50_000, y: 10_000, size: 5_000, speed: 400_000, destroyed: false });
    let mut input = no_input();
    input.restart = true;
    let _ = w.advance(16, input, idle_draws());
    assert!(matches!(w.mode, GameMode::Playing));
    assert_eq!(w.score, 0);
    assert_eq!(w.high_score, 33);
    assert_eq!(w.hazards.len(), 0);
    assert_eq!(w.projectiles.len(), 0);
}

#[test]
fn quit_from_menu_raises_quit_flag() {
    let mut w = World::new(320_000, 240_000, 0);
    let mut input = no_input();
    input.quit = true;
    let ev = w.advance(16, input, idle_draws());
    assert!(ev.quit);
    assert!(matches!(w.mode, GameMode::MainMenu));
}

#[test]
fn paused_ignores_everything_but_resume_and_quit() {
    let mut w = playing_world();
    w.mode = GameMode::Paused;
    w.score = 5;
    w.high_score = 8;
    w.hazards.push(Hazard { x: 50_000, y: 10_000, size: 20_000, speed: 60_000, destroyed: false });
    let mut input = no_input();
    input.start = true;
    input.restart = true;
    input.fire = true;
    input.pause = true;
    input.up = true;
    let ev = w.advance(500, input, idle_draws());
    assert!(matches!(w.mode, GameMode::Paused));
    assert_eq!(w.score, 5);
    assert_eq!(w.high_score, 8);
    assert_eq!(w.hazards.len(), 1);
    assert_eq!(w.hazards[0].y, 10_000);
    assert_eq!(w.projectiles.len(), 0);
    assert_eq!(w.player.x, 160_000);
    assert_eq!(w.player.y, 120_000);
    assert!(!ev.quit);
    assert_eq!(ev.persist_high_score, None);
    assert_eq!(ev.explosions.len(), 0);
}

#[test]
fn paused_resume_returns_to_playing() {
    let mut w = playing_world();
    w.mode = GameMode::Paused;
    let mut input = no_input();
    input.resume = true;
    let _ = w.advance(16, input, idle_draws());
    assert!(matches!(w.mode, GameMode::Playing));
}

#[test]
fn paused_quit_raises_quit_flag_only() {
    let mut w = playing_world();
    w.mode = GameMode::Paused;
    let mut input = no_input();
    input.quit = true;
    let ev = w.advance(16, input, idle_draws());
    assert!(ev.quit);
    assert!(matches!(w.mode, GameMode::Paused));
}

#[test]
fn pause_during_play_still_finishes_the_frame() {
    let mut w = playing_world();
    w.player = Player { x: 280_000, y: 200_000, radius: 16_000 };
    w.hazards.push(Hazard { x: 50_000, y: 10_000, size: 20_000, speed: 100_000, destroyed: false });
    let mut input = no_input();
    input.pause = true;
    let _ = w.advance(100, input, idle_draws());
    assert!(matches!(w.mode, GameMode::Paused));
    assert_eq!(w.hazards[0].y, 20_000);
}

#[test]
fn entity_reset_is_idempotent() {
    let mut w = playing_world();
    w.score = 17;
    w.high_score = 40;
    w.hazards.push(Hazard { x: 50_000, y: 10_000, size: 20_000, speed: 60_000, destroyed: false });
    w.projectiles.push(Projectile { x: 60_000, y: 80_000, size: 5_000, speed: 400_000, destroyed: false });
    w.entity_reset();
    let once = (
        w.player,
        w.hazards.len(),
        w.projectiles.len(),
        w.score,
        w.high_score,
        w.screen_w,
        w.screen_h,
    );
    w.entity_reset();
    let twice = (
        w.player,
        w.hazards.len(),
        w.projectiles.len(),
        w.score,
        w.high_score,
        w.screen_w,
        w.screen_h,
    );
    assert_eq!(once, twice);
    assert_eq!(w.hazards.len(), 0);
    assert_eq!(w.projectiles.len(), 0);
    assert_eq!(w.player.x, 160_000);
    assert_eq!(w.player.y, 120_000);
    assert_eq!(w.score, 0);
    assert_eq!(w.high_score, 40);
}

#[test]
fn player_loss_is_checked_before_projectile_scoring() {
    // The hazard on the player ends the session even though a projectile
    // destroys another hazard in the same frame; the persisted value is
    // decided before the projectile pass raises the counters.
    let mut w = playing_world();
    w.hazards.push(Hazard { x: 160_000, y: 120_000, size: 40_000, speed: 0, destroyed: false });
    w.hazards.push(Hazard { x: 60_000, y: 60_000, size: 20_000, speed: 0, destroyed: false });
    w.projectiles.push(Projectile { x: 60_000, y: 60_000, size: 5_000, speed: 0, destroyed: false });
    let ev = w.advance(0, no_input(), idle_draws());
    assert!(matches!(w.mode, GameMode::GameOver));
    assert_eq!(ev.persist_high_score, Some(0));
    assert_eq!(w.score, 10);
    assert_eq!(w.high_score, 10);
    assert!(w.hazards[1].destroyed);
}

#[test]
fn no_persist_when_score_trails_high_score() {
    let mut w = playing_world();
    w.score = 3;
    w.high_score = 9;
    w.hazards.push(Hazard { x: 160_000, y: 120_000, size: 40_000, speed: 0, destroyed: false });
    let ev = w.advance(0, no_input(), idle_draws());
    assert!(matches!(w.mode, GameMode::GameOver));
    assert_eq!(ev.persist_high_score, None);
}

#[test]
fn add_score_saturates_and_lifts_high_score() {
    let mut w = World::new(320_000, 240_000, 5);
    w.add_score(3);
    assert_eq!(w.score, 3);
    assert_eq!(w.high_score, 5);
    w.add_score(4);
    assert_eq!(w.score, 7);
    assert_eq!(w.high_score, 7);
    w.add_score(u32::MAX);
    assert_eq!(w.score, u32::MAX);
    assert_eq!(w.high_score, u32::MAX);
}

#[test]
fn reset_session_zeroes_score_only() {
    let mut w = World::new(320_000, 240_000, 11);
    w.add_score(6);
    w.reset_session();
    assert_eq!(w.score, 0);
    assert_eq!(w.high_score, 11);
}

#[test]
fn stored_text_abc_loads_as_zero() {
    let stored: Vec<u8> = b"abc".to_vec();
    assert_eq!(load_high_score(Some(&stored)), 0);
}

#[test]
fn missing_or_empty_store_loads_as_zero() {
    assert_eq!(load_high_score(None), 0);
    let empty: Vec<u8> = Vec::new();
    assert_eq!(load_high_score(Some(&empty)), 0);
}

#[test]
fn numeric_store_loads_exactly() {
    assert_eq!(parse_high_score(&b"123".to_vec()), 123);
    assert_eq!(parse_high_score(&b"0".to_vec()), 0);
    assert_eq!(parse_high_score(&b"+7".to_vec()), 7);
    assert_eq!(parse_high_score(&b"4294967295".to_vec()), u32::MAX);
}

#[test]
fn malformed_store_loads_as_zero() {
    assert_eq!(parse_high_score(&b"4294967296".to_vec()), 0);
    assert_eq!(parse_high_score(&b" 5".to_vec()), 0);
    assert_eq!(parse_high_score(&b"5 ".to_vec()), 0);
    assert_eq!(parse_high_score(&b"-5".to_vec()), 0);
    assert_eq!(parse_high_score(&b"+".to_vec()), 0);
    assert_eq!(parse_high_score(&b"12a".to_vec()), 0);
}

#[test]
fn box_overlap_includes_touching_edges() {
    // Squares of sizes 20 and 5 centred 12.5 apart touch edge to edge,
    // which counts as a collision; 13 apart leaves a gap.
    assert!(box_vs_box(0, 0, 20_000, 12_500, 0, 5_000));
    assert!(box_vs_box(0, 0, 20_000, 12_000, 0, 5_000));
    assert!(box_vs_box(0, 0, 20_000, 0, 12_000, 5_000));
    assert!(!box_vs_box(0, 0, 20_000, 0, 13_000, 5_000));
}

#[test]
fn circle_box_overlap_uses_nearest_point() {
    let p = Player { x: 0, y: 0, radius: 16_000 };
    // The box corner at (10, 10) is about 14.1 units from the origin,
    // within radius 16.
    let near = Hazard { x: 20_000, y: 20_000, size: 20_000, speed: 0, destroyed: false };
    assert!(player_vs_hazard(&p, &near));
    // The corner at (12, 12) is about 17 units away, outside the radius.
    let far = Hazard { x: 22_000, y: 22_000, size: 20_000, speed: 0, destroyed: false };
    assert!(!player_vs_hazard(&p, &far));
    // Touching edge-on at exactly the radius counts as an overlap.
    let edge = Hazard { x: 26_000, y: 0, size: 20_000, speed: 0, destroyed: false };
    assert!(player_vs_hazard(&p, &edge));
    // One milli-unit farther and the circle no longer reaches the box.
    let past = Hazard { x: 26_001, y: 0, size: 20_000, speed: 0, destroyed: false };
    assert!(!player_vs_hazard(&p, &past));
}

#[test]
fn high_score_never_trails_score_across_frames() {
    let mut w = playing_world();
    w.player = Player { x: 280_000, y: 200_000, radius: 16_000 };
    for k in 0..5u32 {
        let y = 60_000 + 1_000 * k as i64;
        w.hazards.push(Hazard { x: 60_000, y, size: 20_000, speed: 0, destroyed: false });
        w.projectiles.push(Projectile { x: 60_000, y, size: 5_000, speed: 0, destroyed: false });
        let _ = w.advance(0, no_input(), idle_draws());
        assert!(w.high_score >= w.score);
    }
    assert_eq!(w.score, 50);
    assert_eq!(w.high_score, 50);
}
