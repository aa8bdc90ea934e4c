//! The three systems of one tick (movement, targeting, combat) and the removal of
//! the dead, as spec functions over the entity records and as code proved to match.
use vstd::prelude::*;

use crate::components::{Attacker, HPComponent, MoveComponent, PositionComponent};
use crate::entity::EntityRecord;
use crate::hex::{distance_between, hex_distance, lemma_step_adjacent, step_toward, HexCoordinate};

verus! {

/// Identifiers strictly increase along the records.
pub open spec fn ids_increasing(s: Seq<EntityRecord>) -> bool {
    forall|i: int, j: int| 0 <= i < j < s.len() ==> s[i].id.0 < s[j].id.0
}

/// Every record satisfies its invariant.
pub open spec fn all_wf(s: Seq<EntityRecord>) -> bool {
    forall|i: int| 0 <= i < s.len() ==> (#[trigger] s[i]).wf()
}

pub open spec fn as_hex(p: PositionComponent) -> HexCoordinate {
    HexCoordinate { q: p.x, r: p.y }
}

pub open spec fn as_position(h: HexCoordinate) -> PositionComponent {
    PositionComponent { x: h.q, y: h.r }
}

/// Hex distance between two positions.
pub open spec fn pos_dist(a: PositionComponent, b: PositionComponent) -> int {
    hex_distance(a.x as int, a.y as int, b.x as int, b.y as int)
}

// ---------------------------------------------------------------- movement

/// One tick of movement for one record: the counter advances, and when it reaches
/// `ticks_to_move` it resets and the entity steps to the neighbour nearest its goal.
pub open spec fn moved(r: EntityRecord) -> EntityRecord {
    match (r.position, r.movement, r.goal) {
        (Some(p), Some(m), Some(g)) => {
            if m.ticks_passed + 1 >= m.ticks_to_move {
                EntityRecord {
                    position: Some(as_position(step_toward(as_hex(p), g))),
                    movement: Some(MoveComponent { ticks_passed: 0, ..m }),
                    ..r
                }
            } else {
                EntityRecord {
                    movement: Some(MoveComponent { ticks_passed: (m.ticks_passed + 1) as i32, ..m }),
                    ..r
                }
            }
        },
        _ => r,
    }
}

/// The movement system over all records.
pub open spec fn move_all(s: Seq<EntityRecord>) -> Seq<EntityRecord> {
    Seq::new(s.len(), |i: int| moved(s[i]))
}

pub fn move_record(r: &EntityRecord) -> (m: EntityRecord)
    requires
        r.wf(),
    ensures
        m == moved(*r),
        m.wf(),
{
    match (r.position, r.movement, r.goal) {
        (Some(p), Some(mv), Some(g)) => {
            if mv.ticks_passed >= mv.ticks_to_move - 1 {
                let here = HexCoordinate { q: p.x, r: p.y };
                proof {
                    lemma_step_adjacent(here, g);
                }
                let h = here.step_toward(&g);
                EntityRecord {
                    position: Some(PositionComponent { x: h.q, y: h.r }),
                    movement: Some(MoveComponent { ticks_passed: 0, ..mv }),
                    ..*r
                }
            } else {
                EntityRecord {
                    movement: Some(MoveComponent { ticks_passed: mv.ticks_passed + 1, ..mv }),
                    ..*r
                }
            }
        },
        _ => *r,
    }
}

/// Runs the movement system over `recs`.
pub fn movement_system(recs: &Vec<EntityRecord>) -> (out: Vec<EntityRecord>)
    requires
        all_wf(recs@),
    ensures
        out@ == move_all(recs@),
        all_wf(out@),
{
    let mut out: Vec<EntityRecord> = Vec::new();
    let mut i: usize = 0;
    while i < recs.len()
        invariant
            i <= recs@.len(),
            all_wf(recs@),
            out@.len() == i,
            forall|k: int| 0 <= k < i ==> out@[k] == moved(recs@[k]),
            all_wf(out@),
        decreases recs@.len() - i,
    {
        let m = move_record(&recs[i]);
        out.push(m);
        i = i + 1;
    }
    assert(out@ =~= move_all(recs@));
    out
}

// ---------------------------------------------------------------- targeting

/// Record `j` may be hit by the attacker at index `i`: another entity with hit
/// points and a position, within the attacker's range.
pub open spec fn is_candidate(s: Seq<EntityRecord>, i: int, j: int) -> bool {
    &&& 0 <= j < s.len()
    &&& j != i
    &&& s[j].hp is Some
    &&& s[j].position is Some
    &&& s[i].attacker is Some
    &&& s[i].position is Some
    &&& pos_dist(s[i].position->0, s[j].position->0) <= s[i].attacker->0.range_of()
}

/// Distance from the record at `i` to the record at `j`.
pub open spec fn dist_from(s: Seq<EntityRecord>, i: int, j: int) -> int {
    pos_dist(s[i].position->0, s[j].position->0)
}

/// The nearest candidate among the first `n` records, ties going to the earlier record.
pub open spec fn scan_target(s: Seq<EntityRecord>, i: int, n: nat) -> Option<int>
    decreases n,
{
    if n == 0 {
        None
    } else {
        let prev = scan_target(s, i, (n - 1) as nat);
        let j = n - 1;
        if is_candidate(s, i, j) && match prev {
            None => true,
            Some(b) => dist_from(s, i, j) < dist_from(s, i, b),
        } {
            Some(j)
        } else {
            prev
        }
    }
}

/// The target chosen for the record at `i`: the nearest candidate, ties going to the
/// lowest identifier (records are kept in increasing identifier order).
pub open spec fn target_of(s: Seq<EntityRecord>, i: int) -> Option<int> {
    scan_target(s, i, s.len())
}

/// The targets of all records.
pub open spec fn targets(s: Seq<EntityRecord>) -> Seq<Option<int>> {
    Seq::new(s.len(), |i: int| target_of(s, i))
}

pub open spec fn opt_int(o: Option<usize>) -> Option<int> {
    match o {
        Some(j) => Some(j as int),
        None => None,
    }
}

proof fn lemma_scan_target(s: Seq<EntityRecord>, i: int, n: nat)
    requires
        n <= s.len(),
    ensures
        scan_target(s, i, n) matches Some(j) ==> {
            &&& 0 <= j < n
            &&& is_candidate(s, i, j)
            &&& forall|k: int|
                0 <= k < n && is_candidate(s, i, k) ==> dist_from(s, i, j) <= #[trigger] dist_from(
                    s,
                    i,
                    k,
                )
            &&& forall|k: int|
                0 <= k < j && is_candidate(s, i, k) ==> dist_from(s, i, j) < #[trigger] dist_from(
                    s,
                    i,
                    k,
                )
        },
        scan_target(s, i, n) is None ==> forall|k: int| 0 <= k < n ==> !#[trigger] is_candidate(s, i, k),
    decreases n,
{
    if n > 0 {
        lemma_scan_target(s, i, (n - 1) as nat);
    }
}

/// The target chosen for an attacker is a candidate in range, no candidate is nearer,
/// and every equally near candidate comes later in identifier order; where none is
/// chosen, there is no candidate at all.
pub proof fn lemma_target_in_range(s: Seq<EntityRecord>, i: int)
    ensures
        target_of(s, i) matches Some(j) ==> {
            &&& 0 <= j < s.len()
            &&& j != i
            &&& s[j].hp is Some
            &&& s[j].position is Some
            &&& dist_from(s, i, j) <= s[i].attacker->0.range_of()
            &&& forall|k: int|
                0 <= k < s.len() && is_candidate(s, i, k) ==> dist_from(s, i, j)
                    <= #[trigger] dist_from(s, i, k)
            &&& forall|k: int|
                0 <= k < j && is_candidate(s, i, k) ==> dist_from(s, i, j) < #[trigger] dist_from(
                    s,
                    i,
                    k,
                )
        },
        target_of(s, i) is None ==> forall|k: int|
            0 <= k < s.len() ==> !#[trigger] is_candidate(s, i, k),
{
    lemma_scan_target(s, i, s.len());
}

/// Finds the target of the attacker at index `i`.
pub fn find_target(recs: &Vec<EntityRecord>, i: usize) -> (t: Option<usize>)
    requires
        i < recs@.len(),
    ensures
        opt_int(t) == target_of(recs@, i as int),
{
    let ghost s = recs@;
    let (a, p) = match (recs[i].attacker, recs[i].position) {
        (Some(a), Some(p)) => (a, p),
        _ => {
            proof {
                lemma_scan_target(s, i as int, s.len());
                assert forall|k: int| 0 <= k < s.len() implies !#[trigger] is_candidate(
                    s,
                    i as int,
                    k,
                ) by {}
                if target_of(s, i as int) is Some {
                    assert(false);
                }
            }
            return None;
        },
    };
    let range = a.range() as i64;
    let mut best: Option<usize> = None;
    let mut best_d: i64 = 0;
    let mut j: usize = 0;
    while j < recs.len()
        invariant
            s == recs@,
            i < s.len(),
            j <= s.len(),
            s[i as int].attacker == Some(a),
            s[i as int].position == Some(p),
            range == a.range_of(),
            opt_int(best) == scan_target(s, i as int, j as nat),
            best matches Some(b) ==> b < j && best_d == dist_from(s, i as int, b as int),
        decreases s.len() - j,
    {
        let rj = recs[j];
        if j != i && rj.hp.is_some() {
            if let Some(pj) = rj.position {
                let d = distance_between(p.x as i64, p.y as i64, pj.x as i64, pj.y as i64);
                let nearer = match best {
                    None => true,
                    Some(_) => d < best_d,
                };
                if d <= range && nearer {
                    best = Some(j);
                    best_d = d;
                }
            }
        }
        j = j + 1;
    }
    best
}

/// Runs the targeting system: the target of every record, by index.
pub fn targeting_system(recs: &Vec<EntityRecord>) -> (t: Vec<Option<usize>>)
    ensures
        t@.len() == recs@.len(),
        forall|k: int| 0 <= k < t@.len() ==> opt_int(#[trigger] t@[k]) == target_of(recs@, k),
{
    let mut t: Vec<Option<usize>> = Vec::new();
    let mut i: usize = 0;
    while i < recs.len()
        invariant
            i <= recs@.len(),
            t@.len() == i,
            forall|k: int| 0 <= k < i ==> opt_int(#[trigger] t@[k]) == target_of(recs@, k),
        decreases recs@.len() - i,
    {
        let x = find_target(recs, i);
        t.push(x);
        i = i + 1;
    }
    t
}

// ---------------------------------------------------------------- combat

/// The record after being hit for `damage`; hit points never go below zero.
pub open spec fn hit(r: EntityRecord, damage: i32) -> EntityRecord {
    match r.hp {
        Some(h) => EntityRecord { hp: Some(h.after_hit(damage)), ..r },
        None => r,
    }
}

/// Combat for the attacker at index `i` with target `t[i]`: its cooldown counter
/// advances, and when it reaches `ticks_to_fire` it resets and the target is hit.
pub open spec fn combat_step(s: Seq<EntityRecord>, t: Seq<Option<int>>, i: int) -> Seq<
    EntityRecord,
> {
    match (s[i].attacker, t[i]) {
        (Some(a), Some(j)) => {
            if a.ticks_passed_of() + 1 >= a.ticks_to_fire_of() {
                let s1 = s.update(i, EntityRecord { attacker: Some(a.with_ticks_passed(0)), ..s[i] });
                s1.update(j, hit(s1[j], a.damage_of()))
            } else {
                s.update(
                    i,
                    EntityRecord {
                        attacker: Some(a.with_ticks_passed((a.ticks_passed_of() + 1) as i32)),
                        ..s[i]
                    },
                )
            }
        },
        _ => s,
    }
}

/// Combat for the first `n` attackers, in increasing identifier order.
pub open spec fn combat_upto(s: Seq<EntityRecord>, t: Seq<Option<int>>, n: nat) -> Seq<
    EntityRecord,
>
    decreases n,
{
    if n == 0 {
        s
    } else {
        combat_step(combat_upto(s, t, (n - 1) as nat), t, n - 1)
    }
}

/// The combat system over all records, given their targets.
pub open spec fn combat_all(s: Seq<EntityRecord>, t: Seq<Option<int>>) -> Seq<EntityRecord> {
    combat_upto(s, t, s.len())
}

pub fn hit_record(r: &EntityRecord, damage: i32) -> (h: EntityRecord)
    requires
        r.wf(),
        damage >= 0,
    ensures
        h == hit(*r, damage),
        h.wf(),
{
    match r.hp {
        Some(hp) => EntityRecord { hp: Some(hp.take_damage(damage)), ..*r },
        None => *r,
    }
}

/// The attacker record fires this tick: its cooldown counter runs out.
pub open spec fn fires(r: EntityRecord) -> bool {
    r.attacker matches Some(a) && a.ticks_passed_of() + 1 >= a.ticks_to_fire_of()
}

/// Among the first `n` attackers, one with target `j` fires (judged on the records
/// as combat found them).
pub open spec fn struck_upto(s: Seq<EntityRecord>, t: Seq<Option<int>>, n: nat, j: int) -> bool
    decreases n,
{
    n > 0 && (struck_upto(s, t, (n - 1) as nat, j) || (t[n - 1] == Some(j) && fires(s[n - 1])))
}

/// Record `j` is hit in this tick's combat.
pub open spec fn struck(s: Seq<EntityRecord>, t: Seq<Option<int>>, j: int) -> bool {
    struck_upto(s, t, s.len(), j)
}

/// Runs the combat system over `recs`, attacker by attacker in index order, and
/// tells which records were hit.
pub fn combat_system(recs: &mut Vec<EntityRecord>, t: &Vec<Option<usize>>) -> (hit_now: Vec<bool>)
    requires
        all_wf(old(recs)@),
        t@.len() == old(recs)@.len(),
        forall|k: int|
            0 <= k < t@.len() ==> (#[trigger] t@[k] matches Some(j) ==> j < t@.len() && j != k),
    ensures
        final(recs)@ == combat_all(old(recs)@, t@.map_values(|o: Option<usize>| opt_int(o))),
        all_wf(final(recs)@),
        final(recs)@.len() == old(recs)@.len(),
        forall|k: int| 0 <= k < final(recs)@.len() ==> (#[trigger] final(recs)@[k]).id == old(recs)@[k].id,
        hit_now@.len() == old(recs)@.len(),
        forall|j: int|
            0 <= j < hit_now@.len() ==> #[trigger] hit_now@[j] == struck(
                old(recs)@,
                t@.map_values(|o: Option<usize>| opt_int(o)),
                j,
            ),
{
    let ghost s0 = recs@;
    let ghost ts = t@.map_values(|o: Option<usize>| opt_int(o));
    let n = recs.len();
    let mut hit_now: Vec<bool> = Vec::new();
    let mut j: usize = 0;
    while j < n
        invariant
            j <= n,
            hit_now@.len() == j,
            forall|k: int| 0 <= k < j ==> !#[trigger] hit_now@[k],
        decreases n - j,
    {
        hit_now.push(false);
        j = j + 1;
    }
    let mut i: usize = 0;
    while i < n
        invariant
            n == s0.len(),
            i <= n,
            t@.len() == n,
            ts == t@.map_values(|o: Option<usize>| opt_int(o)),
            forall|k: int| 0 <= k < n ==> (#[trigger] t@[k] matches Some(j) ==> j < n && j != k),
            recs@ == combat_upto(s0, ts, i as nat),
            recs@.len() == n,
            all_wf(recs@),
            forall|k: int| 0 <= k < n ==> (#[trigger] recs@[k]).id == s0[k].id,
            forall|k: int| i <= k < n ==> (#[trigger] recs@[k]).attacker == s0[k].attacker,
            hit_now@.len() == n,
            forall|k: int| 0 <= k < n ==> #[trigger] hit_now@[k] == struck_upto(s0, ts, i as nat, k),
        decreases n - i,
    {
        let ghost before = recs@;
        let ghost hit_before = hit_now@;
        let r = recs[i];
        match (r.attacker, t[i]) {
            (Some(a), Some(j)) => {
                assert(a.wf());
                let ttf = a.ticks_to_fire();
                let tp = a.ticks_passed();
                if tp >= ttf - 1 {
                    recs.set(i, EntityRecord { attacker: Some(a.set_ticks_passed(0)), ..r });
                    let rj = recs[j];
                    let hj = hit_record(&rj, a.damage());
                    recs.set(j, hj);
                    hit_now.set(j, true);
                } else {
                    recs.set(i, EntityRecord { attacker: Some(a.set_ticks_passed(tp + 1)), ..r });
                }
                assert(recs@ =~= combat_step(before, ts, i as int));
            },
            _ => {
                assert(recs@ =~= combat_step(before, ts, i as int));
            },
        }
        assert forall|k: int| 0 <= k < n implies #[trigger] hit_now@[k] == struck_upto(
            s0,
            ts,
            (i + 1) as nat,
            k,
        ) by {
            assert(hit_before[k] == struck_upto(s0, ts, i as nat, k));
        }
        i = i + 1;
    }
    hit_now
}

// ---------------------------------------------------------------- removal of the dead

/// The records whose flag in `dead` is unset, in their order.
pub open spec fn remove_marked(s: Seq<EntityRecord>, dead: Seq<bool>) -> Seq<EntityRecord>
    decreases s.len(),
{
    if s.len() == 0 {
        s
    } else {
        let rest = remove_marked(s.drop_last(), dead.subrange(0, s.len() - 1));
        if dead[s.len() - 1] {
            rest
        } else {
            rest.push(s.last())
        }
    }
}

/// Removes the records marked dead, keeping the order of the rest.
pub fn remove_dead(recs: &Vec<EntityRecord>, dead: &Vec<bool>) -> (out: Vec<EntityRecord>)
    requires
        all_wf(recs@),
        ids_increasing(recs@),
        dead@.len() == recs@.len(),
    ensures
        out@ == remove_marked(recs@, dead@),
        all_wf(out@),
        ids_increasing(out@),
        forall|k: int| 0 <= k < out@.len() ==> exists|m: int| 0 <= m < recs@.len() && #[trigger] out@[k] == recs@[m],
{
    let ghost s = recs@;
    let mut out: Vec<EntityRecord> = Vec::new();
    let mut i: usize = 0;
    while i < recs.len()
        invariant
            s == recs@,
            dead@.len() == s.len(),
            i <= s.len(),
            all_wf(s),
            ids_increasing(s),
            out@ == remove_marked(s.subrange(0, i as int), dead@.subrange(0, i as int)),
            all_wf(out@),
            ids_increasing(out@),
            forall|k: int, m: int| 0 <= k < out@.len() && i <= m < s.len() ==> out@[k].id.0 < s[m].id.0,
            forall|k: int| 0 <= k < out@.len() ==> exists|m: int| 0 <= m < s.len() && #[trigger] out@[k] == s[m],
        decreases s.len() - i,
    {
        let r = recs[i];
        assert(s.subrange(0, i + 1).drop_last() =~= s.subrange(0, i as int));
        assert(dead@.subrange(0, i + 1).subrange(0, i as int) =~= dead@.subrange(0, i as int));
        if !dead[i] {
            out.push(r);
            assert(out@[out@.len() - 1] == s[i as int]);
        }
        i = i + 1;
    }
    assert(s.subrange(0, s.len() as int) =~= s);
    assert(dead@.subrange(0, s.len() as int) =~= dead@);
    out
}

// ---------------------------------------------------------------- one tick

/// The records that die in this tick: hit in combat (`m` and `t` are the records and
/// targets combat started from) and left at zero hit points in `c`, combat's result.
pub open spec fn killed(m: Seq<EntityRecord>, t: Seq<Option<int>>, c: Seq<EntityRecord>) -> Seq<bool> {
    Seq::new(c.len(), |j: int| struck(m, t, j) && (c[j].hp matches Some(h) && h.currentHP <= 0))
}

/// One tick over the records: movement, then targeting over the moved positions,
/// then combat in increasing identifier order, then the removal of the entities
/// that combat killed in this tick.
pub open spec fn tick(s: Seq<EntityRecord>) -> Seq<EntityRecord> {
    let m = move_all(s);
    let t = targets(m);
    let c = combat_all(m, t);
    remove_marked(c, killed(m, t, c))
}

/// `n` ticks in a row.
pub open spec fn ticks(s: Seq<EntityRecord>, n: nat) -> Seq<EntityRecord>
    decreases n,
{
    if n == 0 {
        s
    } else {
        tick(ticks(s, (n - 1) as nat))
    }
}

/// Runs one tick over `recs`.
pub fn tick_records(recs: &Vec<EntityRecord>) -> (out: Vec<EntityRecord>)
    requires
        all_wf(recs@),
        ids_increasing(recs@),
    ensures
        out@ == tick(recs@),
        all_wf(out@),
        ids_increasing(out@),
        forall|k: int| 0 <= k < out@.len() ==> exists|m: int| 0 <= m < recs@.len() && (#[trigger] out@[k]).id == recs@[m].id,
{
    let mut moved = movement_system(recs);
    let t = targeting_system(&moved);
    proof {
        assert forall|k: int| 0 <= k < t@.len() implies (#[trigger] t@[k] matches Some(j) ==> j < t@.len() && j != k) by {
            lemma_target_in_range(moved@, k);
        }
        assert(t@.map_values(|o: Option<usize>| opt_int(o)) =~= targets(moved@));
    }
    let ghost m0 = moved@;
    let ghost ts = t@.map_values(|o: Option<usize>| opt_int(o));
    let hit_now = combat_system(&mut moved, &t);
    let mut dead: Vec<bool> = Vec::new();
    let mut j: usize = 0;
    while j < moved.len()
        invariant
            j <= moved@.len(),
            hit_now@.len() == moved@.len(),
            dead@.len() == j,
            forall|k: int| 0 <= k < j ==> #[trigger] dead@[k] == (hit_now@[k] && (moved@[k].hp matches Some(h) && h.currentHP <= 0)),
        decreases moved@.len() - j,
    {
        let zero = match moved[j].hp {
            Some(h) => h.currentHP <= 0,
            None => false,
        };
        dead.push(hit_now[j] && zero);
        j = j + 1;
    }
    assert(dead@ =~= killed(m0, ts, moved@));
    assert(ids_increasing(moved@)) by {
        assert(forall|k: int| 0 <= k < moved@.len() ==> (#[trigger] moved@[k]).id == m0[k].id);
        assert(forall|k: int| 0 <= k < m0.len() ==> (#[trigger] m0[k]).id == recs@[k].id);
    }
    let out = remove_dead(&moved, &dead);
    proof {
        assert forall|k: int| 0 <= k < out@.len() implies exists|m: int| 0 <= m < recs@.len() && (#[trigger] out@[k]).id == recs@[m].id by {
            let m = choose|m: int| 0 <= m < moved@.len() && out@[k] == moved@[m];
            assert(moved@[m].id == recs@[m].id);
        }
    }
    out
}

} // verus!
