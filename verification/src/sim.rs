//! The per-frame simulation passes on the entity collections: motion,
//! lifecycle pruning, and the collision pass that marks entities destroyed
//! and accumulates score.

use vstd::prelude::*;
use crate::entities::{
    Explosion, Hazard, Projectile, hazard_ok, projectile_ok, MAX_DIM, MAX_FRAME_MS,
    MAX_SIZE, MAX_SPEED, MS_PER_SECOND,
};
use crate::geom::boxes_overlap;
use crate::score::{max_u32, points_for, sat_add_u32};

verus! {

/// How far an entity of the given speed travels in a frame of `dt`
/// milliseconds, in milli-units (truncating below one milli-unit).
pub open spec fn travel(speed: int, dt: u32) -> int {
    speed * dt / (MS_PER_SECOND as int)
}

/// A hazard one frame of `dt` milliseconds later: it has fallen by its speed.
pub open spec fn hazard_moved(h: Hazard, dt: u32) -> Hazard {
    Hazard { y: (h.y + travel(h.speed as int, dt)) as i64, ..h }
}

/// A projectile one frame of `dt` milliseconds later: it has risen by its
/// speed.
pub open spec fn projectile_moved(p: Projectile, dt: u32) -> Projectile {
    Projectile { y: (p.y - travel(p.speed as int, dt)) as i64, ..p }
}

/// A hazard the lifecycle pass keeps: not destroyed, and its square has not
/// fully passed the bottom edge of the playfield.
pub open spec fn hazard_live(h: Hazard, screen_h: i64) -> bool {
    !h.destroyed && h.y < screen_h + h.size
}

/// A projectile the lifecycle pass keeps: not destroyed, and its square has
/// not fully passed the top edge of the playfield.
pub open spec fn projectile_live(p: Projectile) -> bool {
    !p.destroyed && p.y > -p.size
}

/// The hazards the lifecycle pass keeps, in order.
pub open spec fn live_hazards(s: Seq<Hazard>, screen_h: i64) -> Seq<Hazard> {
    s.filter(|h: Hazard| hazard_live(h, screen_h))
}

/// The projectiles the lifecycle pass keeps, in order.
pub open spec fn live_projectiles(s: Seq<Projectile>) -> Seq<Projectile> {
    s.filter(|p: Projectile| projectile_live(p))
}

/// Nonnegative speeds travel a nonnegative, bounded distance.
pub proof fn lemma_travel_bounds(speed: int, dt: u32)
    requires
        0 <= speed <= MAX_SPEED,
        dt <= MAX_FRAME_MS,
    ensures
        0 <= travel(speed, dt) <= MAX_SPEED * MAX_FRAME_MS / (MS_PER_SECOND as int),
{
    assert(0 <= speed * dt <= MAX_SPEED * MAX_FRAME_MS) by (nonlinear_arith)
        requires
            0 <= speed <= MAX_SPEED,
            0 <= dt <= MAX_FRAME_MS,
    ;
    assert(0 <= speed * dt / (MS_PER_SECOND as int)) by {
        vstd::arithmetic::div_mod::lemma_div_pos_is_pos(speed * dt, MS_PER_SECOND as int);
    }
    assert(speed * dt / (MS_PER_SECOND as int) <= MAX_SPEED * MAX_FRAME_MS / (MS_PER_SECOND as int)) by {
        vstd::arithmetic::div_mod::lemma_div_is_ordered(
            speed * dt,
            MAX_SPEED * MAX_FRAME_MS,
            MS_PER_SECOND as int,
        );
    }
}

/// Motion pass for hazards: each falls by `speed * dt`, everything else is
/// unchanged.
pub fn integrate_hazards(hs: &mut Vec<Hazard>, dt: u32)
    requires
        dt <= MAX_FRAME_MS,
        forall|i: int| 0 <= i < old(hs)@.len() ==> hazard_ok(#[trigger] old(hs)@[i]),
    ensures
        final(hs)@ == old(hs)@.map_values(|h: Hazard| hazard_moved(h, dt)),
{
    let ghost orig = hs@;
    let n = hs.len();
    let mut i: usize = 0;
    while i < n
        invariant
            i <= n,
            n == orig.len(),
            hs@.len() == n,
            dt <= MAX_FRAME_MS,
            forall|j: int| 0 <= j < n ==> hazard_ok(#[trigger] orig[j]),
            forall|j: int| 0 <= j < i ==> hs@[j] == hazard_moved(#[trigger] orig[j], dt),
            forall|j: int| i <= j < n ==> hs@[j] == #[trigger] orig[j],
        decreases n - i,
    {
        let h = hs[i];
        proof {
            assert(h == orig[i as int]);
            assert(hazard_ok(orig[i as int]));
            lemma_travel_bounds(h.speed as int, dt);
        }
        let dy: i64 = h.speed * (dt as i64) / MS_PER_SECOND;
        let y2: i64 = h.y + dy;
        hs.set(i, Hazard { y: y2, ..h });
        i = i + 1;
    }
    assert(hs@ =~= orig.map_values(|h: Hazard| hazard_moved(h, dt)));
}

/// Motion pass for projectiles: each rises by `speed * dt`, everything else
/// is unchanged.
pub fn integrate_projectiles(ps: &mut Vec<Projectile>, dt: u32)
    requires
        dt <= MAX_FRAME_MS,
        forall|i: int| 0 <= i < old(ps)@.len() ==> projectile_ok(#[trigger] old(ps)@[i]),
    ensures
        final(ps)@ == old(ps)@.map_values(|p: Projectile| projectile_moved(p, dt)),
{
    let ghost orig = ps@;
    let n = ps.len();
    let mut i: usize = 0;
    while i < n
        invariant
            i <= n,
            n == orig.len(),
            ps@.len() == n,
            dt <= MAX_FRAME_MS,
            forall|j: int| 0 <= j < n ==> projectile_ok(#[trigger] orig[j]),
            forall|j: int| 0 <= j < i ==> ps@[j] == projectile_moved(#[trigger] orig[j], dt),
            forall|j: int| i <= j < n ==> ps@[j] == #[trigger] orig[j],
        decreases n - i,
    {
        let p = ps[i];
        proof {
            assert(p == orig[i as int]);
            assert(projectile_ok(orig[i as int]));
            lemma_travel_bounds(p.speed as int, dt);
        }
        let dy: i64 = p.speed * (dt as i64) / MS_PER_SECOND;
        let y2: i64 = p.y - dy;
        ps.set(i, Projectile { y: y2, ..p });
        i = i + 1;
    }
    assert(ps@ =~= orig.map_values(|p: Projectile| projectile_moved(p, dt)));
}

/// Lifecycle pass for hazards: drop every hazard that is destroyed or has
/// fully passed the bottom edge, keeping the rest in order.  After this pass
/// the live set holds no destroyed hazard and none past the bottom edge.
pub fn prune_hazards(hs: &mut Vec<Hazard>, screen_h: i64)
    requires
        0 < screen_h <= MAX_DIM,
        forall|i: int| 0 <= i < old(hs)@.len() ==> 0 < (#[trigger] old(hs)@[i]).size <= MAX_SIZE,
    ensures
        final(hs)@ == live_hazards(old(hs)@, screen_h),
        forall|i: int|
            0 <= i < final(hs)@.len() ==> !(#[trigger] final(hs)@[i]).destroyed
                && final(hs)@[i].y < screen_h + final(hs)@[i].size,
        forall|i: int| 0 <= i < final(hs)@.len() ==> old(hs)@.contains(#[trigger] final(hs)@[i]),
{
    let ghost orig = hs@;
    let mut out: Vec<Hazard> = Vec::new();
    let n = hs.len();
    let mut i: usize = 0;
    while i < n
        invariant
            i <= n,
            n == orig.len(),
            hs@ == orig,
            0 < screen_h <= MAX_DIM,
            forall|j: int| 0 <= j < n ==> 0 < (#[trigger] orig[j]).size <= MAX_SIZE,
            out@ == live_hazards(orig.take(i as int), screen_h),
            forall|j: int| 0 <= j < out@.len() ==> orig.contains(#[trigger] out@[j]),
            forall|j: int|
                0 <= j < out@.len() ==> !(#[trigger] out@[j]).destroyed
                    && out@[j].y < screen_h + out@[j].size,
        decreases n - i,
    {
        let h = hs[i];
        proof {
            reveal(Seq::filter);
            assert(orig.take(i + 1).drop_last() =~= orig.take(i as int));
            assert(orig.take(i + 1).last() == orig[i as int]);
        }
        if !h.destroyed && h.y < screen_h + h.size {
            out.push(h);
            assert(orig.contains(h)) by {
                assert(orig[i as int] == h);
            }
        }
        assert(out@ =~= live_hazards(orig.take(i + 1), screen_h));
        i = i + 1;
    }
    assert(orig.take(n as int) =~= orig);
    *hs = out;
}

/// Lifecycle pass for projectiles: drop every projectile that is destroyed
/// or has fully passed the top edge, keeping the rest in order.
pub fn prune_projectiles(ps: &mut Vec<Projectile>)
    requires
        forall|i: int| 0 <= i < old(ps)@.len() ==> 0 < (#[trigger] old(ps)@[i]).size <= MAX_SIZE,
    ensures
        final(ps)@ == live_projectiles(old(ps)@),
        forall|i: int|
            0 <= i < final(ps)@.len() ==> !(#[trigger] final(ps)@[i]).destroyed
                && final(ps)@[i].y > -final(ps)@[i].size,
        forall|i: int| 0 <= i < final(ps)@.len() ==> old(ps)@.contains(#[trigger] final(ps)@[i]),
{
    let ghost orig = ps@;
    let mut out: Vec<Projectile> = Vec::new();
    let n = ps.len();
    let mut i: usize = 0;
    while i < n
        invariant
            i <= n,
            n == orig.len(),
            ps@ == orig,
            forall|j: int| 0 <= j < n ==> 0 < (#[trigger] orig[j]).size <= MAX_SIZE,
            out@ == live_projectiles(orig.take(i as int)),
            forall|j: int| 0 <= j < out@.len() ==> orig.contains(#[trigger] out@[j]),
            forall|j: int|
                0 <= j < out@.len() ==> !(#[trigger] out@[j]).destroyed
                    && out@[j].y > -out@[j].size,
        decreases n - i,
    {
        let p = ps[i];
        proof {
            reveal(Seq::filter);
            assert(orig.take(i + 1).drop_last() =~= orig.take(i as int));
            assert(orig.take(i + 1).last() == orig[i as int]);
        }
        if !p.destroyed && p.y > 0 - p.size {
            out.push(p);
            assert(orig.contains(p)) by {
                assert(orig[i as int] == p);
            }
        }
        assert(out@ =~= live_projectiles(orig.take(i + 1)));
        i = i + 1;
    }
    assert(orig.take(n as int) =~= orig);
    *ps = out;
}

/// A hazard's square and a projectile's square overlap.
pub open spec fn hazard_hits(h: Hazard, p: Projectile) -> bool {
    boxes_overlap(h.x as int, h.y as int, h.size as int, p.x as int, p.y as int, p.size as int)
}

/// The result of the collision pass: the collections with their `destroyed`
/// flags updated, the new counters, and one explosion per hazard destroyed
/// in the pass.
#[verifier::ext_equal]
pub ghost struct CollisionOutcome {
    pub hazards: Seq<Hazard>,
    pub projectiles: Seq<Projectile>,
    pub score: u32,
    pub high_score: u32,
    pub explosions: Seq<Explosion>,
}

/// The first projectile from index `j` on that is still live and overlaps
/// hazard `h`, if any.
pub open spec fn first_live_target(ps: Seq<Projectile>, h: Hazard, j: int) -> Option<int>
    decreases ps.len() - j,
{
    if j < 0 || j >= ps.len() {
        None
    } else if !ps[j].destroyed && hazard_hits(h, ps[j]) {
        Some(j)
    } else {
        first_live_target(ps, h, j + 1)
    }
}

/// The collision pass from hazard index `i` on.  Each hazard still live when
/// it is reached destroys the first live projectile that overlaps it — both
/// flags are set, the score grows by the hazard's points (saturating), the
/// high score keeps pace, and an explosion is recorded.  The flags are
/// re-checked for every pair, so one projectile never scores against two
/// hazards, nor one hazard against two projectiles.
pub open spec fn collide_from(
    hs: Seq<Hazard>,
    ps: Seq<Projectile>,
    score: u32,
    high: u32,
    i: int,
) -> CollisionOutcome
    decreases hs.len() - i,
{
    if i < 0 || i >= hs.len() {
        CollisionOutcome {
            hazards: hs,
            projectiles: ps,
            score: score,
            high_score: high,
            explosions: Seq::empty(),
        }
    } else if !hs[i].destroyed {
        match first_live_target(ps, hs[i], 0) {
            Option::Some(j) => {
                let hs2 = hs.update(i, Hazard { destroyed: true, ..hs[i] });
                let ps2 = ps.update(j, Projectile { destroyed: true, ..ps[j] });
                let s2 = sat_add_u32(score, points_for(hs[i].size as int) as u32);
                let hi2 = max_u32(high, s2);
                let rest = collide_from(hs2, ps2, s2, hi2, i + 1);
                CollisionOutcome {
                    explosions: seq![
                        Explosion { x: hs[i].x, y: hs[i].y, magnitude: hs[i].size },
                    ] + rest.explosions,
                    ..rest
                }
            },
            Option::None => collide_from(hs, ps, score, high, i + 1),
        }
    } else {
        collide_from(hs, ps, score, high, i + 1)
    }
}

/// If no live target is found from index `j` on, no projectile from `j` on
/// is both live and overlapping.
proof fn lemma_first_live_target_none(ps: Seq<Projectile>, h: Hazard, j: int)
    requires
        0 <= j <= ps.len(),
        first_live_target(ps, h, j) == None::<int>,
    ensures
        forall|k: int| j <= k < ps.len() ==> !(!(#[trigger] ps[k]).destroyed && hazard_hits(h, ps[k])),
    decreases ps.len() - j,
{
    if j < ps.len() {
        lemma_first_live_target_none(ps, h, j + 1);
    }
}

/// A found target is in range, live, and overlapping.
proof fn lemma_first_live_target_some(ps: Seq<Projectile>, h: Hazard, j: int, t: int)
    requires
        0 <= j <= ps.len(),
        first_live_target(ps, h, j) == Some(t),
    ensures
        j <= t < ps.len(),
        !ps[t].destroyed,
        hazard_hits(h, ps[t]),
    decreases ps.len() - j,
{
    if j < ps.len() && !(!ps[j].destroyed && hazard_hits(h, ps[j])) {
        lemma_first_live_target_some(ps, h, j + 1, t);
    }
}

/// Structural facts about the collision pass, from hazard index `i` on:
/// positions, sizes and speeds are untouched, `destroyed` flags only ever
/// get set, hazards before `i` are untouched, every newly destroyed entity
/// was hit by a live partner, no overlapping live pair survives, and the
/// high score ends as the maximum of its old value and the final score.
pub proof fn lemma_collide_from_props(
    hs: Seq<Hazard>,
    ps: Seq<Projectile>,
    score: u32,
    high: u32,
    i: int,
)
    requires
        0 <= i <= hs.len(),
        score <= high,
    ensures
        ({
            let o = collide_from(hs, ps, score, high, i);
            &&& o.hazards.len() == hs.len()
            &&& o.projectiles.len() == ps.len()
            &&& forall|k: int|
                0 <= k < hs.len() ==> ((#[trigger] o.hazards[k]).x == hs[k].x
                    && o.hazards[k].y == hs[k].y && o.hazards[k].size == hs[k].size
                    && o.hazards[k].speed == hs[k].speed && (hs[k].destroyed
                    ==> o.hazards[k].destroyed))
            &&& forall|k: int| 0 <= k < i ==> #[trigger] o.hazards[k] == hs[k]
            &&& forall|k: int|
                0 <= k < ps.len() ==> ((#[trigger] o.projectiles[k]).x == ps[k].x
                    && o.projectiles[k].y == ps[k].y && o.projectiles[k].size == ps[k].size
                    && o.projectiles[k].speed == ps[k].speed && (ps[k].destroyed
                    ==> o.projectiles[k].destroyed))
            &&& score <= o.score
            &&& o.high_score == max_u32(high, o.score)
            &&& forall|k: int|
                i <= k < hs.len() && (#[trigger] o.hazards[k]).destroyed && !hs[k].destroyed
                    ==> exists|j: int|
                    0 <= j < ps.len() && !(#[trigger] ps[j]).destroyed && hazard_hits(hs[k], ps[j])
            &&& forall|j: int|
                0 <= j < ps.len() && (#[trigger] o.projectiles[j]).destroyed && !ps[j].destroyed
                    ==> exists|k: int|
                    i <= k < hs.len() && !(#[trigger] hs[k]).destroyed && hazard_hits(hs[k], ps[j])
            &&& forall|k: int, j: int|
                i <= k < hs.len() && 0 <= j < ps.len() && !(#[trigger] o.hazards[k]).destroyed
                    && !(#[trigger] o.projectiles[j]).destroyed ==> !hazard_hits(hs[k], ps[j])
        }),
    decreases hs.len() - i,
{
    let o = collide_from(hs, ps, score, high, i);
    if i == hs.len() {
    } else if !hs[i].destroyed {
        match first_live_target(ps, hs[i], 0) {
            Option::Some(j) => {
                lemma_first_live_target_some(ps, hs[i], 0, j);
                let hs2 = hs.update(i, Hazard { destroyed: true, ..hs[i] });
                let ps2 = ps.update(j, Projectile { destroyed: true, ..ps[j] });
                let s2 = sat_add_u32(score, points_for(hs[i].size as int) as u32);
                let hi2 = max_u32(high, s2);
                lemma_collide_from_props(hs2, ps2, s2, hi2, i + 1);
                let rest = collide_from(hs2, ps2, s2, hi2, i + 1);
                assert(o.hazards == rest.hazards);
                assert(o.high_score == max_u32(high, o.score)) by {
                    assert(rest.high_score == max_u32(hi2, rest.score));
                    assert(s2 <= rest.score);
                }
                assert forall|k: int|
                    i <= k < hs.len() && (#[trigger] o.hazards[k]).destroyed && !hs[k].destroyed
                        implies exists|jj: int|
                        0 <= jj < ps.len() && !(#[trigger] ps[jj]).destroyed && hazard_hits(
                            hs[k],
                            ps[jj],
                        ) by {
                    if k == i {
                        assert(!ps[j].destroyed && hazard_hits(hs[i], ps[j]));
                    } else {
                        assert(o.hazards[k].destroyed && !hs2[k].destroyed);
                        let jj = choose|jj: int|
                            0 <= jj < ps2.len() && !(#[trigger] ps2[jj]).destroyed && hazard_hits(
                                hs2[k],
                                ps2[jj],
                            );
                        assert(jj != j);
                        assert(ps2[jj] == ps[jj]);
                        assert(!ps[jj].destroyed && hazard_hits(hs[k], ps[jj]));
                    }
                }
                assert forall|jj: int|
                    0 <= jj < ps.len() && (#[trigger] o.projectiles[jj]).destroyed
                        && !ps[jj].destroyed implies exists|k: int|
                    i <= k < hs.len() && !(#[trigger] hs[k]).destroyed && hazard_hits(
                        hs[k],
                        ps[jj],
                    ) by {
                    if jj == j {
                        assert(!hs[i].destroyed && hazard_hits(hs[i], ps[j]));
                    } else {
                        assert(o.projectiles[jj].destroyed && !ps2[jj].destroyed);
                        let k = choose|k: int|
                            i + 1 <= k < hs2.len() && !(#[trigger] hs2[k]).destroyed
                                && hazard_hits(hs2[k], ps2[jj]);
                        assert(hs2[k] == hs[k]);
                        assert(hazard_hits(hs[k], ps[jj])) by {
                            assert(ps2[jj].x == ps[jj].x && ps2[jj].y == ps[jj].y
                                && ps2[jj].size == ps[jj].size);
                        }
                    }
                }
                assert forall|k: int, jj: int|
                    i <= k < hs.len() && 0 <= jj < ps.len() && !(#[trigger] o.hazards[k]).destroyed
                        && !(#[trigger] o.projectiles[jj]).destroyed implies !hazard_hits(
                    hs[k],
                    ps[jj],
                ) by {
                    assert(hs2[i].destroyed);
                    assert(k != i);
                    assert(!hazard_hits(hs2[k], ps2[jj]));
                    assert(hs2[k] == hs[k]);
                    assert(ps2[jj].x == ps[jj].x && ps2[jj].y == ps[jj].y && ps2[jj].size
                        == ps[jj].size);
                }
            },
            Option::None => {
                lemma_first_live_target_none(ps, hs[i], 0);
                lemma_collide_from_props(hs, ps, score, high, i + 1);
            },
        }
    } else {
        lemma_collide_from_props(hs, ps, score, high, i + 1);
    }
}

/// `v` capped at `u32::MAX`.
pub open spec fn sat_cap(v: int) -> int {
    if v <= u32::MAX {
        v
    } else {
        u32::MAX as int
    }
}

/// The total points of the hazards from index `k` on that are destroyed in
/// `post` but were not in `pre`.
pub open spec fn new_points(pre: Seq<Hazard>, post: Seq<Hazard>, k: int) -> int
    decreases pre.len() - k,
{
    if k < 0 || k >= pre.len() {
        0
    } else {
        (if post[k].destroyed && !pre[k].destroyed {
            points_for(pre[k].size as int)
        } else {
            0
        }) + new_points(pre, post, k + 1)
    }
}

/// `new_points` reads only the entries from `k` on of its first argument.
proof fn lemma_new_points_congruent(pre1: Seq<Hazard>, pre2: Seq<Hazard>, post: Seq<Hazard>, k: int)
    requires
        pre1.len() == pre2.len(),
        forall|m: int| k <= m < pre1.len() ==> #[trigger] pre1[m] == pre2[m],
    ensures
        new_points(pre1, post, k) == new_points(pre2, post, k),
    decreases pre1.len() - k,
{
    if 0 <= k < pre1.len() {
        lemma_new_points_congruent(pre1, pre2, post, k + 1);
    }
}

/// With positive sizes, the newly destroyed hazards are worth a nonnegative
/// total.
proof fn lemma_new_points_nonneg(pre: Seq<Hazard>, post: Seq<Hazard>, k: int)
    requires
        forall|m: int| 0 <= m < pre.len() ==> 0 < (#[trigger] pre[m]).size,
    ensures
        new_points(pre, post, k) >= 0,
    decreases pre.len() - k,
{
    if 0 <= k < pre.len() {
        lemma_new_points_nonneg(pre, post, k + 1);
    }
}

/// The collision pass grows the score by exactly the total points of the
/// hazards it destroys, saturating at `u32::MAX`.
pub proof fn lemma_collide_from_score(
    hs: Seq<Hazard>,
    ps: Seq<Projectile>,
    score: u32,
    high: u32,
    i: int,
)
    requires
        0 <= i <= hs.len(),
        score <= high,
        forall|k: int| 0 <= k < hs.len() ==> 0 < (#[trigger] hs[k]).size <= MAX_SIZE,
    ensures
        ({
            let o = collide_from(hs, ps, score, high, i);
            o.score as int == sat_cap(score + new_points(hs, o.hazards, i))
        }),
    decreases hs.len() - i,
{
    let o = collide_from(hs, ps, score, high, i);
    if i == hs.len() {
    } else if !hs[i].destroyed {
        match first_live_target(ps, hs[i], 0) {
            Option::Some(j) => {
                lemma_first_live_target_some(ps, hs[i], 0, j);
                let hs2 = hs.update(i, Hazard { destroyed: true, ..hs[i] });
                let ps2 = ps.update(j, Projectile { destroyed: true, ..ps[j] });
                let s2 = sat_add_u32(score, points_for(hs[i].size as int) as u32);
                let hi2 = max_u32(high, s2);
                let rest = collide_from(hs2, ps2, s2, hi2, i + 1);
                lemma_collide_from_score(hs2, ps2, s2, hi2, i + 1);
                lemma_collide_from_props(hs2, ps2, s2, hi2, i + 1);
                let pts = points_for(hs[i].size as int);
                assert(0 <= pts <= MAX_SIZE);
                lemma_new_points_congruent(hs2, hs, rest.hazards, i + 1);
                lemma_new_points_nonneg(hs, rest.hazards, i + 1);
                assert(o.hazards[i].destroyed);
                assert(new_points(hs, o.hazards, i) == pts + new_points(hs, rest.hazards, i + 1));
            },
            Option::None => {
                lemma_collide_from_score(hs, ps, score, high, i + 1);
                lemma_collide_from_props(hs, ps, score, high, i + 1);
                let rest = collide_from(hs, ps, score, high, i + 1);
                assert(o.hazards[i] == hs[i]);
                assert(new_points(hs, o.hazards, i) == new_points(hs, rest.hazards, i + 1));
            },
        }
    } else {
        lemma_collide_from_score(hs, ps, score, high, i + 1);
        lemma_collide_from_props(hs, ps, score, high, i + 1);
        let rest = collide_from(hs, ps, score, high, i + 1);
        assert(o.hazards[i] == hs[i]);
        assert(new_points(hs, o.hazards, i) == new_points(hs, rest.hazards, i + 1));
    }
}

/// A lone live hazard and a lone live projectile that overlap are both
/// destroyed by the collision pass, and the score grows by exactly the
/// hazard's points.
pub proof fn lemma_lone_pair_both_destroyed(h: Hazard, p: Projectile, score: u32, high: u32)
    requires
        !h.destroyed,
        !p.destroyed,
        hazard_hits(h, p),
        score <= high,
    ensures
        ({
            let o = collide_from(seq![h], seq![p], score, high, 0);
            &&& o.hazards[0].destroyed
            &&& o.projectiles[0].destroyed
            &&& o.score == sat_add_u32(score, points_for(h.size as int) as u32)
            &&& o.high_score == max_u32(high, o.score)
            &&& o.explosions == seq![Explosion { x: h.x, y: h.y, magnitude: h.size }]
        }),
{
    let hs = seq![h];
    let ps = seq![p];
    assert(first_live_target(ps, h, 0) == Some(0int));
    let hs2 = hs.update(0, Hazard { destroyed: true, ..h });
    let ps2 = ps.update(0, Projectile { destroyed: true, ..p });
    let s2 = sat_add_u32(score, points_for(h.size as int) as u32);
    let o = collide_from(hs, ps, score, high, 0);
    assert(collide_from(hs2, ps2, s2, max_u32(high, s2), 1).explosions =~= Seq::<
        Explosion,
    >::empty());
    assert(o.explosions =~= seq![Explosion { x: h.x, y: h.y, magnitude: h.size }]);
}

/// Find the first live projectile overlapping `h`, scanning in order.
fn find_live_target(ps: &Vec<Projectile>, h: &Hazard) -> (r: Option<usize>)
    requires
        hazard_ok(*h),
        forall|i: int| 0 <= i < ps@.len() ==> projectile_ok(#[trigger] ps@[i]),
    ensures
        match r {
            Option::Some(j) => j < ps@.len() && first_live_target(ps@, *h, 0) == Some(j as int),
            Option::None => first_live_target(ps@, *h, 0) == None::<int>,
        },
{
    let n = ps.len();
    let mut j: usize = 0;
    while j < n
        invariant
            j <= n,
            n == ps@.len(),
            hazard_ok(*h),
            forall|k: int| 0 <= k < n ==> projectile_ok(#[trigger] ps@[k]),
            first_live_target(ps@, *h, 0) == first_live_target(ps@, *h, j as int),
        decreases n - j,
    {
        let p = ps[j];
        if !p.destroyed && crate::geom::projectile_vs_hazard(&p, h) {
            assert(first_live_target(ps@, *h, j as int) == Some(j as int));
            return Some(j);
        }
        assert(first_live_target(ps@, *h, j as int) == first_live_target(ps@, *h, j + 1));
        j = j + 1;
    }
    None
}

/// The collision pass: marks the colliding pairs destroyed, accumulates the
/// score and the high score, and returns one explosion per destroyed hazard.
pub fn resolve_collisions(
    hs: &mut Vec<Hazard>,
    ps: &mut Vec<Projectile>,
    score: &mut u32,
    high: &mut u32,
) -> (ev: Vec<Explosion>)
    requires
        forall|i: int| 0 <= i < old(hs)@.len() ==> hazard_ok(#[trigger] old(hs)@[i]),
        forall|i: int| 0 <= i < old(ps)@.len() ==> projectile_ok(#[trigger] old(ps)@[i]),
    ensures
        ({
            let o = collide_from(old(hs)@, old(ps)@, *old(score), *old(high), 0);
            &&& final(hs)@ == o.hazards
            &&& final(ps)@ == o.projectiles
            &&& *final(score) == o.score
            &&& *final(high) == o.high_score
            &&& ev@ == o.explosions
        }),
{
    let ghost hs0 = hs@;
    let ghost ps0 = ps@;
    let ghost s0 = *score;
    let ghost h0 = *high;
    let ghost o = collide_from(hs0, ps0, s0, h0, 0);
    let mut ev: Vec<Explosion> = Vec::new();
    let n = hs.len();
    let mut i: usize = 0;
    while i < n
        invariant
            i <= n,
            n == hs@.len(),
            forall|k: int| 0 <= k < n ==> hazard_ok(#[trigger] hs@[k]),
            forall|k: int| 0 <= k < ps@.len() ==> projectile_ok(#[trigger] ps@[k]),
            o == collide_from(hs0, ps0, s0, h0, 0),
            ({
                let rest = collide_from(hs@, ps@, *score, *high, i as int);
                &&& o.hazards == rest.hazards
                &&& o.projectiles == rest.projectiles
                &&& o.score == rest.score
                &&& o.high_score == rest.high_score
                &&& o.explosions == ev@ + rest.explosions
            }),
        decreases n - i,
    {
        let ghost pre_hs = hs@;
        let ghost pre_ps = ps@;
        let ghost pre_s = *score;
        let ghost pre_h = *high;
        let ghost pre_ev = ev@;
        let hz = hs[i];
        if !hz.destroyed {
            match find_live_target(ps, &hz) {
                Option::Some(j) => {
                    let pr = ps[j];
                    hs.set(i, Hazard { destroyed: true, ..hz });
                    ps.set(j, Projectile { destroyed: true, ..pr });
                    let pts = crate::score::hazard_points(hz.size);
                    crate::score::bump_score(score, high, pts);
                    ev.push(Explosion { x: hz.x, y: hz.y, magnitude: hz.size });
                    proof {
                        assert(hazard_ok(pre_hs[i as int]));
                        assert(0 <= points_for(hz.size as int) <= MAX_SIZE);
                        assert(pts == points_for(hz.size as int) as u32);
                        assert(hs@ =~= pre_hs.update(
                            i as int,
                            Hazard { destroyed: true, ..pre_hs[i as int] },
                        ));
                        assert(ps@ =~= pre_ps.update(
                            j as int,
                            Projectile { destroyed: true, ..pre_ps[j as int] },
                        ));
                        let rest_pre = collide_from(pre_hs, pre_ps, pre_s, pre_h, i as int);
                        let rest_post = collide_from(hs@, ps@, *score, *high, i + 1);
                        assert(rest_pre.explosions =~= seq![
                            Explosion { x: hz.x, y: hz.y, magnitude: hz.size },
                        ] + rest_post.explosions);
                        assert(ev@ =~= pre_ev + seq![
                            Explosion { x: hz.x, y: hz.y, magnitude: hz.size },
                        ]);
                        assert(o.explosions =~= ev@ + rest_post.explosions);
                        assert(forall|k: int|
                            0 <= k < n ==> hazard_ok(#[trigger] hs@[k])) by {
                            assert(forall|k: int|
                                0 <= k < n && k != i ==> hs@[k] == #[trigger] pre_hs[k]);
                        }
                        assert(forall|k: int|
                            0 <= k < ps@.len() ==> projectile_ok(#[trigger] ps@[k])) by {
                            assert(forall|k: int|
                                0 <= k < ps@.len() && k != j ==> ps@[k] == #[trigger] pre_ps[k]);
                        }
                    }
                },
                Option::None => {
                    assert(collide_from(pre_hs, pre_ps, pre_s, pre_h, i as int)
                        == collide_from(hs@, ps@, *score, *high, i + 1));
                },
            }
        } else {
            assert(collide_from(pre_hs, pre_ps, pre_s, pre_h, i as int)
                == collide_from(hs@, ps@, *score, *high, i + 1));
        }
        i = i + 1;
    }
    proof {
        let rest = collide_from(hs@, ps@, *score, *high, n as int);
        assert(rest.hazards == hs@);
        assert(rest.projectiles == ps@);
        assert(o.explosions =~= ev@);
    }
    ev
}

} // verus!
