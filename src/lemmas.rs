//! Laws of the tick: what holds over every state and over runs of several ticks.
use vstd::prelude::*;

use crate::components::{MoveComponent, PositionComponent};
use crate::entity::EntityRecord;
use crate::hex::{lemma_step_adjacent, step_toward, HexCoordinate};
use crate::systems::{
    all_wf, as_hex, as_position, combat_step, combat_upto, ids_increasing, killed, lemma_target_in_range,
    move_all, moved, remove_marked, targets, tick, ticks,
};

verus! {

/// The parts of a record that movement reads and writes.
pub open spec fn motion(r: EntityRecord) -> (
    Option<PositionComponent>,
    Option<MoveComponent>,
    Option<HexCoordinate>,
) {
    (r.position, r.movement, r.goal)
}

/// `n` ticks of movement for one record.
pub open spec fn moved_n(r: EntityRecord, n: nat) -> EntityRecord
    decreases n,
{
    if n == 0 {
        r
    } else {
        moved(moved_n(r, (n - 1) as nat))
    }
}

/// Where a record's one step takes it: the neighbour of `p` nearest the goal.
pub open spec fn next_position(p: PositionComponent, goal: HexCoordinate) -> PositionComponent {
    as_position(step_toward(as_hex(p), goal))
}

/// Every target lies within the records and is not the attacker itself.
pub open spec fn targets_valid(s: Seq<EntityRecord>, t: Seq<Option<int>>) -> bool {
    &&& t.len() == s.len()
    &&& forall|k: int|
        0 <= k < t.len() ==> (#[trigger] t[k] matches Some(j) ==> 0 <= j < s.len() && j != k)
}

proof fn lemma_targets_valid(s: Seq<EntityRecord>)
    ensures
        targets_valid(s, targets(s)),
{
    assert forall|k: int| 0 <= k < targets(s).len() implies (#[trigger] targets(s)[k] matches Some(
        j,
    ) ==> 0 <= j < s.len() && j != k) by {
        lemma_target_in_range(s, k);
    }
}

proof fn lemma_moved_wf(r: EntityRecord)
    requires
        r.wf(),
    ensures
        moved(r).wf(),
        moved(r).id == r.id,
        moved(r).hp == r.hp,
{
}

proof fn lemma_motion_congruent(a: EntityRecord, b: EntityRecord)
    requires
        motion(a) == motion(b),
    ensures
        motion(moved(a)) == motion(moved(b)),
{
}

proof fn lemma_combat_upto(s: Seq<EntityRecord>, t: Seq<Option<int>>, n: nat)
    requires
        targets_valid(s, t),
        n <= s.len(),
    ensures
        combat_upto(s, t, n).len() == s.len(),
        forall|k: int|
            0 <= k < s.len() ==> (#[trigger] combat_upto(s, t, n)[k]).id == s[k].id && motion(
                combat_upto(s, t, n)[k],
            ) == motion(s[k]),
        all_wf(s) ==> all_wf(combat_upto(s, t, n)),
    decreases n,
{
    if n > 0 {
        lemma_combat_upto(s, t, (n - 1) as nat);
        let c = combat_upto(s, t, (n - 1) as nat);
        let c2 = combat_step(c, t, n - 1);
        assert(c2 == combat_upto(s, t, n));
        assert forall|k: int| 0 <= k < s.len() implies (#[trigger] c2[k]).id == s[k].id && motion(
            c2[k],
        ) == motion(s[k]) by {
            assert(c[k].id == s[k].id);
        }
        if all_wf(s) {
            assert forall|k: int| 0 <= k < c2.len() implies (#[trigger] c2[k]).wf() by {
                assert(c[k].wf());
                assert(c[n - 1].wf());
            }
        }
    }
}

proof fn lemma_remove_marked(s: Seq<EntityRecord>, dead: Seq<bool>)
    requires
        dead.len() == s.len(),
    ensures
        remove_marked(s, dead).len() <= s.len(),
        forall|k: int|
            0 <= k < remove_marked(s, dead).len() ==> exists|m: int|
                0 <= m < s.len() && #[trigger] remove_marked(s, dead)[k] == s[m],
        all_wf(s) ==> all_wf(remove_marked(s, dead)),
    decreases s.len(),
{
    if s.len() > 0 {
        let d = s.drop_last();
        let dd = dead.subrange(0, s.len() - 1);
        lemma_remove_marked(d, dd);
        let v = remove_marked(s, dead);
        assert forall|k: int| 0 <= k < v.len() implies exists|m: int|
            0 <= m < s.len() && #[trigger] v[k] == s[m] by {
            if k < remove_marked(d, dd).len() {
                let m = choose|m: int| 0 <= m < d.len() && remove_marked(d, dd)[k] == d[m];
                assert(v[k] == s[m]);
            } else {
                assert(v[k] == s[s.len() - 1]);
            }
        }
        if all_wf(s) {
            assert(all_wf(d));
        }
    }
}

/// One tick keeps every record well formed; above all, no hit points fall below
/// zero.
pub proof fn lemma_tick_keeps_wf(s: Seq<EntityRecord>)
    requires
        all_wf(s),
    ensures
        all_wf(tick(s)),
        forall|k: int|
            0 <= k < tick(s).len() ==> ((#[trigger] tick(s)[k]).hp matches Some(h) ==> h.currentHP
                >= 0 && h.currentHP <= h.maxHP),
{
    let m = move_all(s);
    assert forall|k: int| 0 <= k < m.len() implies (#[trigger] m[k]).wf() by {
        lemma_moved_wf(s[k]);
    }
    lemma_targets_valid(m);
    lemma_combat_upto(m, targets(m), m.len());
    let c = combat_upto(m, targets(m), m.len());
    lemma_remove_marked(c, killed(m, targets(m), c));
    assert forall|k: int| 0 <= k < tick(s).len() implies ((#[trigger] tick(s)[k]).hp matches Some(
        h,
    ) ==> h.currentHP >= 0 && h.currentHP <= h.maxHP) by {
        assert(tick(s)[k].wf());
    }
}

proof fn lemma_tick_motion(s: Seq<EntityRecord>)
    ensures
        forall|k: int|
            0 <= k < tick(s).len() ==> exists|m: int|
                0 <= m < s.len() && (#[trigger] tick(s)[k]).id == s[m].id && motion(tick(s)[k])
                    == motion(moved(s[m])),
{
    let m = move_all(s);
    let c = combat_upto(m, targets(m), m.len());
    lemma_targets_valid(m);
    lemma_combat_upto(m, targets(m), m.len());
    let dead = killed(m, targets(m), c);
    lemma_remove_marked(c, dead);
    assert forall|k: int| 0 <= k < tick(s).len() implies exists|i: int|
        0 <= i < s.len() && (#[trigger] tick(s)[k]).id == s[i].id && motion(tick(s)[k]) == motion(
            moved(s[i]),
        ) by {
        let i = choose|i: int| 0 <= i < c.len() && remove_marked(c, dead)[k] == c[i];
        assert(c[i].id == m[i].id);
    }
}

proof fn lemma_ticks_motion(s: Seq<EntityRecord>, n: nat)
    ensures
        forall|k: int|
            0 <= k < ticks(s, n).len() ==> exists|m: int|
                0 <= m < s.len() && (#[trigger] ticks(s, n)[k]).id == s[m].id && motion(
                    ticks(s, n)[k],
                ) == motion(moved_n(s[m], n)),
    decreases n,
{
    if n == 0 {
        assert forall|k: int| 0 <= k < ticks(s, n).len() implies exists|m: int|
            0 <= m < s.len() && (#[trigger] ticks(s, n)[k]).id == s[m].id && motion(ticks(s, n)[k])
                == motion(moved_n(s[m], n)) by {
            assert(moved_n(s[k], 0) == s[k]);
        }
    } else {
        let p = ticks(s, (n - 1) as nat);
        lemma_ticks_motion(s, (n - 1) as nat);
        lemma_tick_motion(p);
        assert forall|k: int| 0 <= k < ticks(s, n).len() implies exists|m: int|
            0 <= m < s.len() && (#[trigger] ticks(s, n)[k]).id == s[m].id && motion(ticks(s, n)[k])
                == motion(moved_n(s[m], n)) by {
            assert(ticks(s, n) == tick(p));
            let i = choose|i: int|
                0 <= i < p.len() && (#[trigger] tick(p)[k]).id == p[i].id && motion(tick(p)[k])
                    == motion(moved(p[i]));
            let m = choose|m: int|
                0 <= m < s.len() && (#[trigger] p[i]).id == s[m].id && motion(p[i]) == motion(
                    moved_n(s[m], (n - 1) as nat),
                );
            lemma_motion_congruent(p[i], moved_n(s[m], (n - 1) as nat));
        }
    }
}

proof fn lemma_moved_n_cycle(r: EntityRecord, n: nat)
    requires
        r.wf(),
        r.position is Some,
        r.movement matches Some(mv) && mv.ticks_passed == 0,
        n < r.movement->0.ticks_to_move,
    ensures
        moved_n(r, n) == (EntityRecord {
            movement: Some(MoveComponent { ticks_passed: n as i32, ..r.movement->0 }),
            ..r
        }),
    decreases n,
{
    if n > 0 {
        lemma_moved_n_cycle(r, (n - 1) as nat);
    }
}

/// Within one movement cycle an entity does not move: before `ticks_to_move` ticks
/// have passed from a counter at zero, an entity still present stands where it stood,
/// and its counter equals the number of ticks passed.
pub proof fn lemma_no_step_mid_cycle(s: Seq<EntityRecord>, m: int, n: nat, k: int)
    requires
        ids_increasing(s),
        0 <= m < s.len(),
        s[m].wf(),
        s[m].position is Some,
        s[m].movement matches Some(mv) && mv.ticks_passed == 0,
        n < s[m].movement->0.ticks_to_move,
        0 <= k < ticks(s, n).len(),
        ticks(s, n)[k].id == s[m].id,
    ensures
        ticks(s, n)[k].position == s[m].position,
        ticks(s, n)[k].movement == Some(
            MoveComponent { ticks_passed: n as i32, ..s[m].movement->0 },
        ),
{
    lemma_ticks_motion(s, n);
    let i = choose|i: int|
        0 <= i < s.len() && (#[trigger] ticks(s, n)[k]).id == s[i].id && motion(ticks(s, n)[k])
            == motion(moved_n(s[i], n));
    if i != m {
        if i < m {
            assert(s[i].id.0 < s[m].id.0);
        } else {
            assert(s[m].id.0 < s[i].id.0);
        }
    }
    lemma_moved_n_cycle(s[m], n);
}

/// One step per cycle: an entity whose movement counter is at zero and which is still
/// present `ticks_to_move` ticks later has taken exactly one step, to the neighbour
/// nearest its goal (one closer to it, unless it stood on it), and its counter is
/// back at zero.
pub proof fn lemma_one_step_per_cycle(s: Seq<EntityRecord>, m: int, k: int)
    requires
        ids_increasing(s),
        0 <= m < s.len(),
        s[m].wf(),
        s[m].position is Some,
        s[m].movement matches Some(mv) && mv.ticks_passed == 0,
        0 <= k < ticks(s, s[m].movement->0.ticks_to_move as nat).len(),
        ticks(s, s[m].movement->0.ticks_to_move as nat)[k].id == s[m].id,
    ensures
        ticks(s, s[m].movement->0.ticks_to_move as nat)[k].position == Some(
            next_position(s[m].position->0, s[m].goal->0),
        ),
        as_hex(next_position(s[m].position->0, s[m].goal->0)).dist_to(as_hex(s[m].position->0))
            == 1,
        as_hex(s[m].position->0) != s[m].goal->0 ==> as_hex(
            next_position(s[m].position->0, s[m].goal->0),
        ).dist_to(s[m].goal->0) == as_hex(s[m].position->0).dist_to(s[m].goal->0) - 1,
        ticks(s, s[m].movement->0.ticks_to_move as nat)[k].movement == s[m].movement,
{
    lemma_step_adjacent(as_hex(s[m].position->0), s[m].goal->0);
    let n = s[m].movement->0.ticks_to_move as nat;
    lemma_ticks_motion(s, n);
    let i = choose|i: int|
        0 <= i < s.len() && (#[trigger] ticks(s, n)[k]).id == s[i].id && motion(ticks(s, n)[k])
            == motion(moved_n(s[i], n));
    if i != m {
        if i < m {
            assert(s[i].id.0 < s[m].id.0);
        } else {
            assert(s[m].id.0 < s[i].id.0);
        }
    }
    lemma_moved_n_cycle(s[m], (n - 1) as nat);
    assert(moved_n(s[m], n) == moved(moved_n(s[m], (n - 1) as nat)));
}

/// Replaying the same number of ticks over the same records gives the same records:
/// a tick has no hidden inputs.
pub proof fn lemma_replay_deterministic(a: Seq<EntityRecord>, b: Seq<EntityRecord>, n: nat)
    requires
        a == b,
    ensures
        ticks(a, n) == ticks(b, n),
        tick(a) == tick(b),
{
}

} // verus!
