//! Axial hex coordinates: addition, neighbours and distance.
use vstd::prelude::*;

verus! {

/// Absolute value over mathematical integers.
pub open spec fn abs_int(x: int) -> int {
    if x < 0 { -x } else { x }
}

/// Hex distance between axial positions `(aq, ar)` and `(bq, br)`.
pub open spec fn hex_distance(aq: int, ar: int, bq: int, br: int) -> int {
    (abs_int(aq - bq) + abs_int(ar - br) + abs_int(aq + ar - bq - br)) / 2
}

/// The q offset of direction `k`; directions run clockwise from east:
/// east, south-east, south-west, west, north-west, north-east.
pub open spec fn dir_q(k: int) -> int {
    if k == 0 { 1 } else if k == 1 { 0 } else if k == 2 { -1 } else if k == 3 { -1 } else if k == 4 {
        0
    } else { 1 }
}

/// The r offset of direction `k` (see `dir_q`).
pub open spec fn dir_r(k: int) -> int {
    if k == 0 { 0 } else if k == 1 { 1 } else if k == 2 { 1 } else if k == 3 { 0 } else if k == 4 {
        -1
    } else { -1 }
}

/// A position on the hex grid in axial form; the third cube coordinate is `-q - r`.
#[derive(Clone, Copy, Debug, PartialEq, Eq, Structural)]
pub struct HexCoordinate {
    pub q: i32,
    pub r: i32,
}

impl HexCoordinate {
    pub open spec fn dist_to(self, o: HexCoordinate) -> int {
        hex_distance(self.q as int, self.r as int, o.q as int, o.r as int)
    }

    pub fn new(q: i32, r: i32) -> (h: HexCoordinate)
        ensures
            h.q == q,
            h.r == r,
    {
        HexCoordinate { q, r }
    }

    /// Component-wise sum of two coordinates.
    pub fn add(&self, o: &HexCoordinate) -> (h: HexCoordinate)
        requires
            i32::MIN <= self.q + o.q <= i32::MAX,
            i32::MIN <= self.r + o.r <= i32::MAX,
        ensures
            h.q == self.q + o.q,
            h.r == self.r + o.r,
    {
        HexCoordinate { q: self.q + o.q, r: self.r + o.r }
    }

    /// Hex distance to `o`: the number of single steps between the two positions.
    pub fn distance(&self, o: &HexCoordinate) -> (d: i64)
        ensures
            d == self.dist_to(*o),
            d >= 0,
    {
        distance_between(self.q as i64, self.r as i64, o.q as i64, o.r as i64)
    }

    /// The six adjacent coordinates, clockwise from east.
    pub fn neighbors(&self) -> (v: Vec<HexCoordinate>)
        requires
            i32::MIN < self.q < i32::MAX,
            i32::MIN < self.r < i32::MAX,
        ensures
            v@.len() == 6,
            forall|k: int|
                0 <= k < 6 ==> (#[trigger] v@[k]).q == self.q + dir_q(k) && v@[k].r == self.r
                    + dir_r(k),
    {
        let mut v: Vec<HexCoordinate> = Vec::new();
        let mut k: usize = 0;
        while k < 6
            invariant
                k <= 6,
                i32::MIN < self.q < i32::MAX,
                i32::MIN < self.r < i32::MAX,
                v@.len() == k,
                forall|j: int|
                    0 <= j < k ==> (#[trigger] v@[j]).q == self.q + dir_q(j) && v@[j].r == self.r
                        + dir_r(j),
            decreases 6 - k,
        {
            let (dq, dr) = direction(k);
            v.push(HexCoordinate { q: (self.q as i64 + dq) as i32, r: (self.r as i64 + dr) as i32 });
            k = k + 1;
        }
        v
    }
}

/// The offsets of direction `k`.
pub fn direction(k: usize) -> (d: (i64, i64))
    requires
        k < 6,
    ensures
        d.0 == dir_q(k as int),
        d.1 == dir_r(k as int),
{
    if k == 0 {
        (1, 0)
    } else if k == 1 {
        (0, 1)
    } else if k == 2 {
        (-1, 1)
    } else if k == 3 {
        (-1, 0)
    } else if k == 4 {
        (0, -1)
    } else {
        (1, -1)
    }
}

fn abs_i64(x: i64) -> (a: i64)
    requires
        x > i64::MIN,
    ensures
        a == abs_int(x as int),
{
    if x < 0 { -x } else { x }
}

/// Hex distance between positions given with coordinates that fit in 32 bits
/// plus one step.
pub fn distance_between(aq: i64, ar: i64, bq: i64, br: i64) -> (d: i64)
    requires
        -0x1_0000_0000 <= aq <= 0x1_0000_0000,
        -0x1_0000_0000 <= ar <= 0x1_0000_0000,
        -0x1_0000_0000 <= bq <= 0x1_0000_0000,
        -0x1_0000_0000 <= br <= 0x1_0000_0000,
    ensures
        d == hex_distance(aq as int, ar as int, bq as int, br as int),
        d >= 0,
{
    (abs_i64(aq - bq) + abs_i64(ar - br) + abs_i64(aq + ar - bq - br)) / 2
}

/// Distance is symmetric, and every position is at distance zero from itself.
pub proof fn lemma_distance_symmetric(a: HexCoordinate, b: HexCoordinate)
    ensures
        a.dist_to(b) == b.dist_to(a),
        a.dist_to(a) == 0,
        a.dist_to(b) >= 0,
{
}

impl HexCoordinate {
    /// One step toward `goal`: the neighbour nearest to it, ties going to the earlier
    /// direction clockwise from east. At the goal every neighbour is equally near, so
    /// the step goes east.
    pub fn step_toward(&self, goal: &HexCoordinate) -> (n: HexCoordinate)
        requires
            step_fits(*self, *goal),
        ensures
            n == step_toward(*self, *goal),
            n.dist_to(*self) == 1,
    {
        let pq = self.q as i64;
        let pr = self.r as i64;
        let gq = goal.q as i64;
        let gr = goal.r as i64;
        let ghost ipq = pq as int;
        let ghost ipr = pr as int;
        let ghost igq = gq as int;
        let ghost igr = gr as int;
        let mut best: usize = 0;
        let mut best_d = distance_between(pq + 1, pr, gq, gr);
        let mut k: usize = 1;
        while k < 6
            invariant
                1 <= k <= 6,
                pq == self.q,
                pr == self.r,
                gq == goal.q,
                gr == goal.r,
                ipq == pq,
                ipr == pr,
                igq == gq,
                igr == gr,
                best as int == best_dir_upto(ipq, ipr, igq, igr, k as nat),
                best < 6,
                best_d == dir_dist(ipq, ipr, igq, igr, best as int),
            decreases 6 - k,
        {
            let (dq, dr) = direction(k);
            let d = distance_between(pq + dq, pr + dr, gq, gr);
            proof {
                let kk = (k + 1) as nat;
                assert(best_dir_upto(ipq, ipr, igq, igr, kk) == if dir_dist(ipq, ipr, igq, igr, k as int)
                    < dir_dist(ipq, ipr, igq, igr, best as int) {
                    k as int
                } else {
                    best as int
                });
            }
            if d < best_d {
                best = k;
                best_d = d;
            }
            k = k + 1;
        }
        proof {
            lemma_step_adjacent(*self, *goal);
        }
        let (dq, dr) = direction(best);
        HexCoordinate { q: (pq + dq) as i32, r: (pr + dr) as i32 }
    }
}

/// Distance to the goal from the neighbour of `(pq, pr)` in direction `k`.
pub open spec fn dir_dist(pq: int, pr: int, gq: int, gr: int, k: int) -> int {
    hex_distance(pq + dir_q(k), pr + dir_r(k), gq, gr)
}

/// Among the first `n` directions, the first one whose neighbour is closest to the goal.
pub open spec fn best_dir_upto(pq: int, pr: int, gq: int, gr: int, n: nat) -> int
    decreases n,
{
    if n <= 1 {
        0
    } else {
        let b = best_dir_upto(pq, pr, gq, gr, (n - 1) as nat);
        let k = n - 1;
        if dir_dist(pq, pr, gq, gr, k) < dir_dist(pq, pr, gq, gr, b) {
            k
        } else {
            b
        }
    }
}

/// The direction of one step from `p` toward `g`: the neighbour nearest to the goal,
/// ties going to the earlier direction in clockwise order from east.
pub open spec fn step_dir(p: HexCoordinate, g: HexCoordinate) -> int {
    best_dir_upto(p.q as int, p.r as int, g.q as int, g.r as int, 6)
}

/// Where one step from `p` toward `g` lands: the neighbour in direction `step_dir`.
pub open spec fn step_toward(p: HexCoordinate, g: HexCoordinate) -> HexCoordinate {
    let k = step_dir(p, g);
    HexCoordinate { q: (p.q + dir_q(k)) as i32, r: (p.r + dir_r(k)) as i32 }
}

/// The step from `p` toward `g` stays within 32-bit coordinates: away from the goal
/// it lies between `p` and `g`; from the goal it goes east.
pub open spec fn step_fits(p: HexCoordinate, g: HexCoordinate) -> bool {
    p != g || g.q < i32::MAX
}

proof fn lemma_best_dir_minimal(pq: int, pr: int, gq: int, gr: int, n: nat)
    requires
        1 <= n <= 6,
    ensures
        0 <= best_dir_upto(pq, pr, gq, gr, n) < n,
        forall|k: int|
            0 <= k < n ==> dir_dist(pq, pr, gq, gr, best_dir_upto(pq, pr, gq, gr, n)) <= #[trigger] dir_dist(
                pq,
                pr,
                gq,
                gr,
                k,
            ),
        forall|k: int|
            0 <= k < best_dir_upto(pq, pr, gq, gr, n) ==> dir_dist(
                pq,
                pr,
                gq,
                gr,
                best_dir_upto(pq, pr, gq, gr, n),
            ) < #[trigger] dir_dist(pq, pr, gq, gr, k),
    decreases n,
{
    if n > 1 {
        lemma_best_dir_minimal(pq, pr, gq, gr, (n - 1) as nat);
    }
}

/// The direction of a step is the first, clockwise from east, among those whose
/// neighbour is nearest to the goal.
pub proof fn lemma_step_dir_nearest(p: HexCoordinate, g: HexCoordinate)
    ensures
        0 <= step_dir(p, g) < 6,
        forall|j: int|
            0 <= j < 6 ==> dir_dist(p.q as int, p.r as int, g.q as int, g.r as int, step_dir(p, g))
                <= #[trigger] dir_dist(p.q as int, p.r as int, g.q as int, g.r as int, j),
        forall|j: int|
            0 <= j < step_dir(p, g) ==> dir_dist(
                p.q as int,
                p.r as int,
                g.q as int,
                g.r as int,
                step_dir(p, g),
            ) < #[trigger] dir_dist(p.q as int, p.r as int, g.q as int, g.r as int, j),
{
    lemma_best_dir_minimal(p.q as int, p.r as int, g.q as int, g.r as int, 6);
}

/// Every step lands on a neighbour: from the goal itself on the east neighbour,
/// from anywhere else on one exactly one closer to the goal.
pub proof fn lemma_step_adjacent(p: HexCoordinate, g: HexCoordinate)
    requires
        step_fits(p, g),
    ensures
        0 <= step_dir(p, g) < 6,
        step_toward(p, g).q == p.q + dir_q(step_dir(p, g)),
        step_toward(p, g).r == p.r + dir_r(step_dir(p, g)),
        step_toward(p, g).dist_to(p) == 1,
        p == g ==> step_dir(p, g) == 0,
        p != g ==> step_toward(p, g).dist_to(g) == p.dist_to(g) - 1,
{
    lemma_step_dir_nearest(p, g);
    if p != g {
        lemma_step_closer(p, g);
    } else {
        let (pq, pr) = (p.q as int, p.r as int);
        assert(dir_dist(pq, pr, pq, pr, 0) == 1);
        assert forall|j: int| 0 <= j < 6 implies #[trigger] dir_dist(pq, pr, pq, pr, j) == 1 by {}
    }
}

/// One step toward a different goal lands on an adjacent hex exactly one closer
/// to the goal, with each coordinate between the start and the goal.
pub proof fn lemma_step_closer(p: HexCoordinate, g: HexCoordinate)
    requires
        p != g,
    ensures
        0 <= step_dir(p, g) < 6,
        step_toward(p, g).q == p.q + dir_q(step_dir(p, g)),
        step_toward(p, g).r == p.r + dir_r(step_dir(p, g)),
        step_toward(p, g).dist_to(g) == p.dist_to(g) - 1,
{
    let (pq, pr, gq, gr) = (p.q as int, p.r as int, g.q as int, g.r as int);
    lemma_best_dir_minimal(pq, pr, gq, gr, 6);
    let k = step_dir(p, g);
    let d = hex_distance(pq, pr, gq, gr);
    // no neighbour is more than one step closer
    assert(dir_dist(pq, pr, gq, gr, k) >= d - 1);
    // some neighbour is one closer
    let dq = gq - pq;
    let dr = gr - pr;
    let w: int = if dq > 0 && dr >= 0 {
        0
    } else if dq <= 0 && dr > 0 && dq + dr > 0 {
        1
    } else if dq < 0 && dr > 0 {
        2
    } else if dq < 0 && dr <= 0 {
        3
    } else if dq >= 0 && dr < 0 && dq + dr < 0 {
        4
    } else {
        5
    };
    assert(dir_dist(pq, pr, gq, gr, w) == d - 1);
    let nq = pq + dir_q(k);
    let nr = pr + dir_r(k);
    assert(dir_dist(pq, pr, gq, gr, k) == d - 1);
    assert(i32::MIN <= nq <= i32::MAX && i32::MIN <= nr <= i32::MAX);
}

} // verus!
