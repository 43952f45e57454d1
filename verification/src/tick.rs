//! The automaton engine: one discrete tick moves loose material toward
//! lower terrain.
//!
//! A tick scans the grid in row-major order, reading the pre-tick state and
//! writing into a buffer that starts as a copy of it.  A movable source cell
//! may relocate, with its full pre-tick height, into one cardinal neighbor
//! that is empty *in the buffer* (so a destination claimed earlier in the
//! same scan, or vacated earlier in the same scan, counts as such) and whose
//! pre-tick height lies far enough below the source's.  Which candidate
//! moves is decided by the random source.
//!
//! The tick's effect is specified by the relation [`tick_of`]: whatever the
//! random draws, the new state is the fold of some valid move sequence over
//! the old one.  The public lemmas derive the guarantees the automaton gives
//! for every such sequence: mass conservation, immobility of solid cells,
//! no destination claimed twice, and the empty-height invariant.

use vstd::prelude::*;

use crate::map::{cleared, empty_height_zero, MineralCell, MineralMap};
use crate::material::{spec_physics, MineralType, PhysicsType};
use crate::rng::TickRng;

verus! {

/// Whether the automaton may move this cell at all.
pub open spec fn movable(c: MineralCell) -> bool {
    ||| spec_physics(c.mineral_type) == PhysicsType::Granular
    ||| spec_physics(c.mineral_type) == PhysicsType::Flowing
}

/// The height drop (in ten-thousandths) a move of this physics class
/// requires: granular material needs much lower terrain, flowing material
/// moderately lower terrain.
pub open spec fn move_threshold(p: PhysicsType) -> int {
    if p == PhysicsType::Granular {
        200000
    } else {
        100000
    }
}

/// The cell as it arrives at its destination: the source's material, density
/// and sampled flag, with the mined flag set.
pub open spec fn relocated(c: MineralCell) -> MineralCell {
    MineralCell { mineral_type: c.mineral_type, density: c.density, sampled: c.sampled, mined: true }
}

/// Whether `d` is the north, east, south or west neighbor of `s` in a
/// row-major grid of width `w` and `len` cells.
pub open spec fn adjacent(w: int, len: int, s: int, d: int) -> bool {
    &&& 0 <= s < len
    &&& 0 <= d < len
    &&& {
        ||| d == s - w
        ||| d == s + w
        ||| (d == s + 1 && s % w != w - 1)
        ||| (d == s - 1 && s % w != 0)
    }
}

/// Whether moving the cell at `s` into `d` is legal, given the pre-tick
/// cells and heights and the buffer `buf` as it stands when the move is
/// made: the source is movable, the destination is empty in the buffer, and
/// the pre-tick height difference clears the source's threshold.
pub open spec fn move_ok(
    pre_c: Seq<MineralCell>,
    pre_h: Seq<i64>,
    w: int,
    buf: Seq<MineralCell>,
    s: int,
    d: int,
) -> bool {
    &&& adjacent(w, pre_c.len() as int, s, d)
    &&& movable(pre_c[s])
    &&& spec_physics(buf[d].mineral_type) == PhysicsType::Empty
    &&& pre_h[s] - pre_h[d] > move_threshold(spec_physics(pre_c[s].mineral_type))
}

/// The cells after folding the moves of `ms` (in order) over the pre-tick
/// cells: each move copies the source's pre-tick cell to its destination
/// with the mined flag set, and clears the source.
pub open spec fn cells_after(pre: Seq<MineralCell>, ms: Seq<(int, int)>) -> Seq<MineralCell>
    decreases ms.len(),
{
    if ms.len() == 0 {
        pre
    } else {
        let rest = cells_after(pre, ms.drop_last());
        let m = ms.last();
        rest.update(m.1, relocated(pre[m.0])).update(m.0, cleared(pre[m.0]))
    }
}

/// The heights after folding the moves of `ms` over the pre-tick heights:
/// each move carries the source's full pre-tick height to the destination
/// and leaves height zero behind.
pub open spec fn heights_after(pre_h: Seq<i64>, ms: Seq<(int, int)>) -> Seq<i64>
    decreases ms.len(),
{
    if ms.len() == 0 {
        pre_h
    } else {
        let rest = heights_after(pre_h, ms.drop_last());
        let m = ms.last();
        rest.update(m.1, pre_h[m.0]).update(m.0, 0)
    }
}

/// Whether `ms` is a move sequence one tick can make: sources appear in
/// strictly increasing scan order, and each move is legal against the buffer
/// produced by the moves before it.
pub open spec fn moves_ok(
    pre_c: Seq<MineralCell>,
    pre_h: Seq<i64>,
    w: int,
    ms: Seq<(int, int)>,
) -> bool
    decreases ms.len(),
{
    if ms.len() == 0 {
        true
    } else {
        let init = ms.drop_last();
        let m = ms.last();
        &&& moves_ok(pre_c, pre_h, w, init)
        &&& (init.len() == 0 || init.last().0 < m.0)
        &&& move_ok(pre_c, pre_h, w, cells_after(pre_c, init), m.0, m.1)
    }
}

/// Whether `post` is a state one tick may turn `pre` into: the fold of some
/// valid move sequence `ms`.
pub open spec fn tick_of(pre: MineralMap, post: MineralMap, ms: Seq<(int, int)>) -> bool {
    &&& moves_ok(pre.cells(), pre.heights(), pre.spec_width() as int, ms)
    &&& post.spec_width() == pre.spec_width()
    &&& post.spec_height() == pre.spec_height()
    &&& post.cells() == cells_after(pre.cells(), ms)
    &&& post.heights() == heights_after(pre.heights(), ms)
}

/// The destination a source moves into when every probability gate passes:
/// the first of its north, east, south and west neighbors that admits a
/// legal move against the buffer `buf`, if any.
pub open spec fn first_target(
    pre_c: Seq<MineralCell>,
    pre_h: Seq<i64>,
    w: int,
    buf: Seq<MineralCell>,
    s: int,
) -> Option<int> {
    if move_ok(pre_c, pre_h, w, buf, s, s - w) {
        Option::Some(s - w)
    } else if move_ok(pre_c, pre_h, w, buf, s, s + 1) {
        Option::Some(s + 1)
    } else if move_ok(pre_c, pre_h, w, buf, s, s + w) {
        Option::Some(s + w)
    } else if move_ok(pre_c, pre_h, w, buf, s, s - 1) {
        Option::Some(s - 1)
    } else {
        Option::None
    }
}

/// The moves one tick makes when every probability gate passes and every
/// pick takes the first candidate: each of the first `n` sources, in scan
/// order, moves into its first eligible neighbor whenever it has one.
pub open spec fn forced_moves_upto(
    pre_c: Seq<MineralCell>,
    pre_h: Seq<i64>,
    w: int,
    n: int,
) -> Seq<(int, int)>
    decreases n,
{
    if n <= 0 {
        Seq::empty()
    } else {
        let init = forced_moves_upto(pre_c, pre_h, w, n - 1);
        match first_target(pre_c, pre_h, w, cells_after(pre_c, init), n - 1) {
            Option::Some(d) => init.push((n - 1, d)),
            Option::None => init,
        }
    }
}

/// The move sequence a tick of `pre` makes with the forced random source:
/// a deterministic, greedy settling pass over the whole grid.
pub open spec fn forced_tick_moves(pre: MineralMap) -> Seq<(int, int)> {
    forced_moves_upto(pre.cells(), pre.heights(), pre.spec_width() as int, pre.spec_len())
}

/// One when the cell holds material, zero when it is empty.
pub open spec fn filled_weight(c: MineralCell) -> int {
    if c.mineral_type == MineralType::Empty {
        0
    } else {
        1
    }
}

/// The number of cells of `s` that hold material.
pub open spec fn count_filled(s: Seq<MineralCell>) -> int
    decreases s.len(),
{
    if s.len() == 0 {
        0
    } else {
        count_filled(s.drop_last()) + filled_weight(s.last())
    }
}

impl MineralMap {
    /// The number of cells currently holding material.  One tick never
    /// changes this value: material only relocates.
    pub fn filled_cells(&self) -> (n: usize)
        requires
            self.wf(),
        ensures
            n as int == count_filled(self.cells()),
    {
        let total = self.data.len();
        let mut n: usize = 0;
        let mut i: usize = 0;
        while i < total
            invariant
                total == self.data@.len(),
                i <= total,
                n <= i,
                n as int == count_filled(self.data@.take(i as int)),
            decreases total - i,
        {
            proof {
                assert(self.data@.take(i as int + 1).drop_last() =~= self.data@.take(i as int));
                assert(self.data@.take(i as int + 1).last() == self.data@[i as int]);
            }
            if self.data[i].mineral_type != MineralType::Empty {
                n = n + 1;
            }
            i = i + 1;
        }
        proof {
            assert(self.data@.take(total as int) =~= self.data@);
        }
        n
    }
}

/// Folding the moves of a valid sequence never changes the storage size.
pub proof fn lemma_after_len(
    pre: Seq<MineralCell>,
    pre_h: Seq<i64>,
    w: int,
    ms: Seq<(int, int)>,
)
    requires
        moves_ok(pre, pre_h, w, ms),
        pre_h.len() == pre.len(),
    ensures
        cells_after(pre, ms).len() == pre.len(),
        heights_after(pre_h, ms).len() == pre_h.len(),
    decreases ms.len(),
{
    if ms.len() != 0 {
        lemma_after_len(pre, pre_h, w, ms.drop_last());
    }
}

/// In a valid move sequence the sources are strictly increasing, pairwise.
pub proof fn lemma_sources_increase(
    pre_c: Seq<MineralCell>,
    pre_h: Seq<i64>,
    w: int,
    ms: Seq<(int, int)>,
)
    requires
        moves_ok(pre_c, pre_h, w, ms),
    ensures
        forall|j: int, k: int| 0 <= j < k < ms.len() ==> ms[j].0 < ms[k].0,
    decreases ms.len(),
{
    if ms.len() != 0 {
        let init = ms.drop_last();
        lemma_sources_increase(pre_c, pre_h, w, init);
        assert forall|j: int, k: int| 0 <= j < k < ms.len() implies ms[j].0 < ms[k].0 by {
            if k < ms.len() - 1 {
                assert(init[j].0 < init[k].0);
            } else {
                if j < ms.len() - 2 {
                    assert(init[j].0 < init[ms.len() - 2].0);
                }
            }
        }
    }
}

/// Every valid move sequence stays valid when cut short.
pub proof fn lemma_moves_ok_prefix(
    pre_c: Seq<MineralCell>,
    pre_h: Seq<i64>,
    w: int,
    ms: Seq<(int, int)>,
    t: int,
)
    requires
        moves_ok(pre_c, pre_h, w, ms),
        0 <= t <= ms.len(),
    ensures
        moves_ok(pre_c, pre_h, w, ms.take(t)),
    decreases ms.len() - t,
{
    if t < ms.len() {
        lemma_moves_ok_prefix(pre_c, pre_h, w, ms.drop_last(), t);
        assert(ms.drop_last().take(t) =~= ms.take(t));
    } else {
        assert(ms.take(t) =~= ms);
    }
}

/// A slot that holds material and is never a source of the moves stays
/// exactly as it was: moves write their source (which this slot is not) and
/// a destination that was empty in the buffer (which this slot, holding
/// material, never is).
pub proof fn lemma_untouched(
    pre_c: Seq<MineralCell>,
    pre_h: Seq<i64>,
    w: int,
    ms: Seq<(int, int)>,
    x: int,
)
    requires
        moves_ok(pre_c, pre_h, w, ms),
        pre_h.len() == pre_c.len(),
        0 <= x < pre_c.len(),
        spec_physics(pre_c[x].mineral_type) != PhysicsType::Empty,
        forall|k: int| 0 <= k < ms.len() ==> ms[k].0 != x,
    ensures
        cells_after(pre_c, ms)[x] == pre_c[x],
        heights_after(pre_h, ms)[x] == pre_h[x],
    decreases ms.len(),
{
    if ms.len() != 0 {
        let init = ms.drop_last();
        let m = ms.last();
        lemma_untouched(pre_c, pre_h, w, init, x);
        lemma_after_len(pre_c, pre_h, w, init);
        assert(spec_physics(cells_after(pre_c, init)[x].mineral_type) != PhysicsType::Empty);
        assert(m.1 != x);
    }
}

/// A slot that is empty after some moves either was empty before the tick or
/// was vacated by one of them: relocation only fills slots.
pub proof fn lemma_empty_origin(
    pre_c: Seq<MineralCell>,
    pre_h: Seq<i64>,
    w: int,
    ms: Seq<(int, int)>,
    x: int,
)
    requires
        moves_ok(pre_c, pre_h, w, ms),
        pre_h.len() == pre_c.len(),
        0 <= x < pre_c.len(),
        spec_physics(cells_after(pre_c, ms)[x].mineral_type) == PhysicsType::Empty,
    ensures
        spec_physics(pre_c[x].mineral_type) == PhysicsType::Empty || exists|k: int|
            0 <= k < ms.len() && (#[trigger] ms[k]).0 == x,
    decreases ms.len(),
{
    if ms.len() != 0 {
        let init = ms.drop_last();
        let m = ms.last();
        lemma_after_len(pre_c, pre_h, w, init);
        if x == m.0 {
            assert(0 <= ms.len() - 1 < ms.len() && ms[ms.len() - 1].0 == x);
        } else if x == m.1 {
            assert(spec_physics(relocated(pre_c[m.0]).mineral_type) != PhysicsType::Empty);
        } else {
            lemma_empty_origin(pre_c, pre_h, w, init, x);
            if exists|k: int| 0 <= k < init.len() && (#[trigger] init[k]).0 == x {
                let k = choose|k: int| 0 <= k < init.len() && (#[trigger] init[k]).0 == x;
                assert(0 <= k < ms.len() && ms[k].0 == x);
            }
        }
    }
}

/// A slot that holds material after the first `t` moves, and is not the
/// source of any later move, still holds material at the end.
pub proof fn lemma_stays_filled(
    pre_c: Seq<MineralCell>,
    pre_h: Seq<i64>,
    w: int,
    ms: Seq<(int, int)>,
    x: int,
    t: int,
)
    requires
        moves_ok(pre_c, pre_h, w, ms),
        pre_h.len() == pre_c.len(),
        0 <= x < pre_c.len(),
        0 <= t <= ms.len(),
        spec_physics(cells_after(pre_c, ms.take(t))[x].mineral_type) != PhysicsType::Empty,
        forall|k: int| t <= k < ms.len() ==> ms[k].0 != x,
    ensures
        spec_physics(cells_after(pre_c, ms)[x].mineral_type) != PhysicsType::Empty,
    decreases ms.len() - t,
{
    if t < ms.len() {
        let init = ms.drop_last();
        let m = ms.last();
        assert(ms.take(t) =~= init.take(t));
        lemma_stays_filled(pre_c, pre_h, w, init, x, t);
        lemma_after_len(pre_c, pre_h, w, init);
        assert(m.0 != x);
    } else {
        assert(ms.take(t) =~= ms);
    }
}

/// Each move of a valid sequence is legal against the buffer built by the
/// moves before it.
pub proof fn lemma_move_ok_at(
    pre_c: Seq<MineralCell>,
    pre_h: Seq<i64>,
    w: int,
    ms: Seq<(int, int)>,
    k: int,
)
    requires
        moves_ok(pre_c, pre_h, w, ms),
        0 <= k < ms.len(),
    ensures
        move_ok(pre_c, pre_h, w, cells_after(pre_c, ms.take(k)), ms[k].0, ms[k].1),
    decreases ms.len(),
{
    if k == ms.len() - 1 {
        assert(ms.take(k) =~= ms.drop_last());
    } else {
        lemma_move_ok_at(pre_c, pre_h, w, ms.drop_last(), k);
        assert(ms.drop_last().take(k) =~= ms.take(k));
    }
}

/// A destination is never the source of a later move in the same tick:
/// sources are movable pre-tick cells in increasing scan order, while a
/// claimed slot was either empty pre-tick or an earlier, already-passed
/// source.
pub proof fn lemma_dst_never_later_src(
    pre_c: Seq<MineralCell>,
    pre_h: Seq<i64>,
    w: int,
    ms: Seq<(int, int)>,
    j: int,
    k: int,
)
    requires
        moves_ok(pre_c, pre_h, w, ms),
        pre_h.len() == pre_c.len(),
        0 <= j < k < ms.len(),
    ensures
        ms[j].1 != ms[k].0,
{
    lemma_move_ok_at(pre_c, pre_h, w, ms, j);
    lemma_move_ok_at(pre_c, pre_h, w, ms, k);
    lemma_moves_ok_prefix(pre_c, pre_h, w, ms, j);
    lemma_after_len(pre_c, pre_h, w, ms.take(j));
    lemma_sources_increase(pre_c, pre_h, w, ms);
    let x = ms[j].1;
    lemma_empty_origin(pre_c, pre_h, w, ms.take(j), x);
    if spec_physics(pre_c[x].mineral_type) == PhysicsType::Empty {
        assert(movable(pre_c[ms[k].0]));
    } else {
        let p = choose|p: int| 0 <= p < ms.take(j).len() && (#[trigger] ms.take(j)[p]).0 == x;
        assert(ms[p].0 == x && p < k);
    }
}

/// No destination is claimed twice in one tick: once a move fills a slot,
/// only a later move out of it could empty it again, and a filled
/// destination is never a later source.
pub proof fn lemma_no_double_claim(
    pre_c: Seq<MineralCell>,
    pre_h: Seq<i64>,
    w: int,
    ms: Seq<(int, int)>,
)
    requires
        moves_ok(pre_c, pre_h, w, ms),
        pre_h.len() == pre_c.len(),
    ensures
        forall|j: int, k: int| 0 <= j < k < ms.len() ==> ms[j].1 != ms[k].1,
{
    assert forall|j: int, k: int| 0 <= j < k < ms.len() implies ms[j].1 != ms[k].1 by {
        if ms[j].1 == ms[k].1 {
            let x = ms[j].1;
            lemma_move_ok_at(pre_c, pre_h, w, ms, j);
            lemma_move_ok_at(pre_c, pre_h, w, ms, k);
            lemma_moves_ok_prefix(pre_c, pre_h, w, ms, k);
            lemma_sources_increase(pre_c, pre_h, w, ms);
            // After move j the slot x holds relocated material.
            let upto = ms.take(k);
            lemma_moves_ok_prefix(pre_c, pre_h, w, upto, j + 1);
            assert(upto.take(j + 1) =~= ms.take(j + 1));
            assert(ms.take(j + 1).drop_last() =~= ms.take(j));
            lemma_after_len(pre_c, pre_h, w, ms.take(j));
            assert(cells_after(pre_c, ms.take(j + 1))[x] == relocated(pre_c[ms[j].0]));
            assert(spec_physics(cells_after(pre_c, upto.take(j + 1))[x].mineral_type)
                != PhysicsType::Empty);
            // No move in (j, k) has source x, so the slot stays filled up to k.
            assert forall|m: int| j + 1 <= m < upto.len() implies upto[m].0 != x by {
                lemma_dst_never_later_src(pre_c, pre_h, w, ms, j, m);
            }
            lemma_stays_filled(pre_c, pre_h, w, upto, x, j + 1);
            // Yet move k requires the slot to be empty in the buffer.
            assert(spec_physics(cells_after(pre_c, ms.take(k))[x].mineral_type)
                == PhysicsType::Empty);
        }
    }
}

/// Updating one slot changes the filled count by the weight difference.
proof fn lemma_count_update(s: Seq<MineralCell>, i: int, v: MineralCell)
    requires
        0 <= i < s.len(),
    ensures
        count_filled(s.update(i, v)) == count_filled(s) - filled_weight(s[i]) + filled_weight(v),
    decreases s.len(),
{
    let u = s.update(i, v);
    if i == s.len() - 1 {
        assert(u.drop_last() =~= s.drop_last());
        assert(u.last() == v);
    } else {
        assert(u.drop_last() =~= s.drop_last().update(i, v));
        assert(u.last() == s.last());
        lemma_count_update(s.drop_last(), i, v);
    }
}

/// One tick conserves mass: every move empties exactly the slot it fills
/// from, so the number of filled cells never changes.
pub proof fn lemma_count_preserved(
    pre_c: Seq<MineralCell>,
    pre_h: Seq<i64>,
    w: int,
    ms: Seq<(int, int)>,
)
    requires
        moves_ok(pre_c, pre_h, w, ms),
        pre_h.len() == pre_c.len(),
    ensures
        count_filled(cells_after(pre_c, ms)) == count_filled(pre_c),
    decreases ms.len(),
{
    if ms.len() != 0 {
        let init = ms.drop_last();
        let m = ms.last();
        lemma_count_preserved(pre_c, pre_h, w, init);
        lemma_after_len(pre_c, pre_h, w, init);
        let rest = cells_after(pre_c, init);
        lemma_sources_increase(pre_c, pre_h, w, ms);
        // The final source is untouched by the earlier moves.
        assert forall|k: int| 0 <= k < init.len() implies init[k].0 != m.0 by {
            assert(ms[k].0 < ms[ms.len() - 1].0);
        }
        lemma_untouched(pre_c, pre_h, w, init, m.0);
        assert(rest[m.0] == pre_c[m.0]);
        assert(m.0 != m.1);
        lemma_count_update(rest, m.1, relocated(pre_c[m.0]));
        lemma_count_update(rest.update(m.1, relocated(pre_c[m.0])), m.0, cleared(pre_c[m.0]));
        assert(filled_weight(rest[m.1]) == 0);
        assert(filled_weight(relocated(pre_c[m.0])) == 1);
        assert(rest.update(m.1, relocated(pre_c[m.0]))[m.0] == pre_c[m.0]);
        assert(filled_weight(cleared(pre_c[m.0])) == 0);
    }
}

/// A cell whose physics class is solid before a tick is never moved and
/// never claimed: it keeps its exact content and height.
pub proof fn lemma_solid_fixed(
    pre_c: Seq<MineralCell>,
    pre_h: Seq<i64>,
    w: int,
    ms: Seq<(int, int)>,
    x: int,
)
    requires
        moves_ok(pre_c, pre_h, w, ms),
        pre_h.len() == pre_c.len(),
        0 <= x < pre_c.len(),
        spec_physics(pre_c[x].mineral_type) == PhysicsType::Solid,
    ensures
        cells_after(pre_c, ms)[x] == pre_c[x],
        heights_after(pre_h, ms)[x] == pre_h[x],
{
    assert forall|k: int| 0 <= k < ms.len() implies ms[k].0 != x by {
        lemma_move_ok_at(pre_c, pre_h, w, ms, k);
    }
    lemma_untouched(pre_c, pre_h, w, ms, x);
}

/// One tick preserves the empty-height invariant: cleared sources get
/// height zero, and filled destinations carry their material with them.
pub proof fn lemma_inv_preserved(
    pre_c: Seq<MineralCell>,
    pre_h: Seq<i64>,
    w: int,
    ms: Seq<(int, int)>,
)
    requires
        moves_ok(pre_c, pre_h, w, ms),
        pre_h.len() == pre_c.len(),
        empty_height_zero(pre_c, pre_h),
    ensures
        empty_height_zero(cells_after(pre_c, ms), heights_after(pre_h, ms)),
    decreases ms.len(),
{
    if ms.len() != 0 {
        let init = ms.drop_last();
        let m = ms.last();
        lemma_inv_preserved(pre_c, pre_h, w, init);
        lemma_after_len(pre_c, pre_h, w, ms);
        lemma_after_len(pre_c, pre_h, w, init);
        let c2 = cells_after(pre_c, ms);
        let h2 = heights_after(pre_h, ms);
        assert forall|i: int|
            0 <= i < c2.len() && c2[i].mineral_type == MineralType::Empty implies h2[i] == 0 by {
            if i != m.0 && i != m.1 {
                assert(c2[i] == cells_after(pre_c, init)[i]);
                assert(h2[i] == heights_after(pre_h, init)[i]);
            }
        }
    }
}

/// Bounds of the cardinal neighbors of a row-major index: which of them
/// exist, exactly, in terms of the index's row and column.
proof fn lemma_neighbor_bounds(s: int, w: int, h: int)
    requires
        1 <= w,
        1 <= h,
        0 <= s < w * h,
    ensures
        0 <= s % w <= w - 1,
        0 <= s / w <= h - 1,
        s % w != w - 1 ==> s + 1 < w * h,
        s / w < h - 1 ==> s + w < w * h,
        s / w == h - 1 ==> s + w >= w * h,
        s % w != 0 ==> s >= 1,
{
    assert((0 <= s % w <= w - 1) && (0 <= s / w <= h - 1) && (s % w != w - 1 ==> s + 1 < w * h)
        && (s / w < h - 1 ==> s + w < w * h) && (s / w == h - 1 ==> s + w >= w * h) && (s % w != 0
        ==> s >= 1)) by (nonlinear_arith)
        requires
            1 <= w,
            1 <= h,
            0 <= s < w * h,
    ;
}

impl MineralMap {
    /// Whether the write buffer allows a move from `i` into its neighbor
    /// `n` this tick: the buffer slot at `n` is empty, the pre-tick height
    /// drop clears the source material's threshold, and the per-neighbor
    /// probability gate passes.
    fn is_candidate(
        &self,
        buf: &Vec<MineralCell>,
        i: usize,
        n: usize,
        rng: &mut TickRng,
    ) -> (b: bool)
        requires
            self.wf(),
            buf@.len() == self.spec_len(),
            i < self.spec_len(),
            n < self.spec_len(),
            movable(self.cells()[i as int]),
        ensures
            b ==> spec_physics(buf@[n as int].mineral_type) == PhysicsType::Empty
                && self.heights()[i as int] - self.heights()[n as int] > move_threshold(
                spec_physics(self.cells()[i as int].mineral_type),
            ),
            *old(rng) is Forced ==> *final(rng) is Forced && (b <==> (spec_physics(
                buf@[n as int].mineral_type,
            ) == PhysicsType::Empty && self.heights()[i as int] - self.heights()[n as int]
                > move_threshold(spec_physics(self.cells()[i as int].mineral_type)))),
    {
        let phys = self.data[i].mineral_type.physics_type();
        if buf[n].mineral_type.physics_type() != PhysicsType::Empty {
            return false;
        }
        let threshold: i64 = if phys == PhysicsType::Granular {
            200000
        } else {
            100000
        };
        let diff: i128 = self.heightmap[i] as i128 - self.heightmap[n] as i128;
        if diff <= threshold as i128 {
            return false;
        }
        let permille: u32 = if phys == PhysicsType::Granular {
            300
        } else {
            500
        };
        rng.gate(permille)
    }

    /// Advances the grid and height field by one tick.  The random draws
    /// decide which legal moves happen, but whatever they are, the new
    /// state is the fold of a valid move sequence over the old one
    /// ([`tick_of`]), so a tick conserves the number of filled cells, leaves
    /// every solid cell untouched, and keeps the empty-height invariant.
    /// With the forced random source nothing is left to chance, and the
    /// result is exactly the greedy settling pass [`forced_tick_moves`].
    pub fn step(&mut self, rng: &mut TickRng)
        requires
            old(self).wf(),
            old(self).inv(),
        ensures
            final(self).wf(),
            final(self).inv(),
            final(self).spec_width() == old(self).spec_width(),
            final(self).spec_height() == old(self).spec_height(),
            exists|ms: Seq<(int, int)>| tick_of(*old(self), *final(self), ms),
            count_filled(final(self).cells()) == count_filled(old(self).cells()),
            forall|i: int|
                0 <= i < old(self).spec_len() && spec_physics(
                    #[trigger] old(self).cells()[i].mineral_type,
                ) == PhysicsType::Solid ==> final(self).cells()[i] == old(self).cells()[i]
                    && final(self).heights()[i] == old(self).heights()[i],
            *old(rng) is Forced ==> *final(rng) is Forced && tick_of(
                *old(self),
                *final(self),
                forced_tick_moves(*old(self)),
            ),
    {
        let w = self.width;
        let h = self.height;
        let total = self.data.len();
        let ghost pre_c = self.data@;
        let ghost pre_h = self.heightmap@;

        // The write buffer starts as a copy of the current state.
        let mut buf_cells: Vec<MineralCell> = Vec::new();
        let mut buf_heights: Vec<i64> = Vec::new();
        let mut j: usize = 0;
        while j < total
            invariant
                total == self.data@.len(),
                total == self.heightmap@.len(),
                j <= total,
                buf_cells@.len() == j,
                buf_heights@.len() == j,
                forall|k: int| 0 <= k < j ==> buf_cells@[k] == self.data@[k],
                forall|k: int| 0 <= k < j ==> buf_heights@[k] == self.heightmap@[k],
            decreases total - j,
        {
            buf_cells.push(self.data[j]);
            buf_heights.push(self.heightmap[j]);
            j = j + 1;
        }
        proof {
            assert(buf_cells@ =~= pre_c);
            assert(buf_heights@ =~= pre_h);
        }

        let ghost wi = w as int;
        let ghost mut ms: Seq<(int, int)> = Seq::empty();
        let mut i: usize = 0;
        while i < total
            invariant
                self.wf(),
                self.inv(),
                w == self.spec_width(),
                h == self.spec_height(),
                total == self.spec_len(),
                wi == w as int,
                pre_c == self.cells(),
                pre_h == self.heights(),
                self.width == old(self).spec_width(),
                self.height == old(self).spec_height(),
                self.data@ == old(self).cells(),
                self.heightmap@ == old(self).heights(),
                i <= total,
                moves_ok(pre_c, pre_h, w as int, ms),
                buf_cells@ == cells_after(pre_c, ms),
                buf_heights@ == heights_after(pre_h, ms),
                buf_cells@.len() == total,
                buf_heights@.len() == total,
                ms.len() == 0 || ms.last().0 < i as int,
                *old(rng) is Forced ==> *rng is Forced && ms == forced_moves_upto(
                    pre_c,
                    pre_h,
                    wi,
                    i as int,
                ),
            decreases total - i,
        {
            let ghost si = i as int;
            let c = self.data[i];
            let phys = c.mineral_type.physics_type();
            if phys == PhysicsType::Granular || phys == PhysicsType::Flowing {
                proof {
                    lemma_neighbor_bounds(i as int, w as int, h as int);
                }
                let x = i % w;
                let y = i / w;
                let mut candidates: Vec<usize> = Vec::new();
                // North, east, south, west, in scan order.
                let mut go_n = false;
                if i >= w {
                    go_n = self.is_candidate(&buf_cells, i, i - w, rng);
                }
                if go_n {
                    candidates.push(i - w);
                }
                let mut go_e = false;
                if x < w - 1 {
                    go_e = self.is_candidate(&buf_cells, i, i + 1, rng);
                }
                if go_e {
                    candidates.push(i + 1);
                }
                let mut go_s = false;
                if y < h - 1 {
                    go_s = self.is_candidate(&buf_cells, i, i + w, rng);
                }
                if go_s {
                    candidates.push(i + w);
                }
                let mut go_w = false;
                if x > 0 {
                    go_w = self.is_candidate(&buf_cells, i, i - 1, rng);
                }
                if go_w {
                    candidates.push(i - 1);
                }
                assert(forall|k: int|
                    0 <= k < candidates@.len() ==> move_ok(
                        pre_c,
                        pre_h,
                        w as int,
                        buf_cells@,
                        i as int,
                        #[trigger] candidates@[k] as int,
                    ));
                proof {
                    if *old(rng) is Forced {
                        // With the forced source each direction's outcome is
                        // exactly the spec-side move test, so the first
                        // candidate is the first eligible neighbor.
                        assert(movable(pre_c[si]));
                        assert(go_n == move_ok(pre_c, pre_h, wi, buf_cells@, si, si - wi));
                        assert(go_s == move_ok(pre_c, pre_h, wi, buf_cells@, si, si + wi));
                        if w >= 2 {
                            assert(go_e == move_ok(pre_c, pre_h, wi, buf_cells@, si, si + 1));
                            assert(go_w == move_ok(pre_c, pre_h, wi, buf_cells@, si, si - 1));
                        }
                        if move_ok(pre_c, pre_h, wi, buf_cells@, si, si - wi) {
                            assert(candidates@.len() > 0 && candidates@[0] as int == si - wi);
                        } else if move_ok(pre_c, pre_h, wi, buf_cells@, si, si + 1) {
                            assert(candidates@.len() > 0 && candidates@[0] as int == si + 1);
                        } else if move_ok(pre_c, pre_h, wi, buf_cells@, si, si + wi) {
                            assert(candidates@.len() > 0 && candidates@[0] as int == si + wi);
                        } else if move_ok(pre_c, pre_h, wi, buf_cells@, si, si - 1) {
                            assert(candidates@.len() > 0 && candidates@[0] as int == si - 1);
                        } else {
                            assert(candidates@.len() == 0);
                        }
                        assert(match first_target(pre_c, pre_h, wi, buf_cells@, si) {
                            Option::Some(d) => candidates@.len() > 0 && candidates@[0] as int
                                == d,
                            Option::None => candidates@.len() == 0,
                        });
                    }
                }
                if candidates.len() > 0 {
                    let pass = rng.gate(300);
                    if pass {
                        let k = rng.pick(candidates.len());
                        let n = candidates[k];
                        proof {
                            if *old(rng) is Forced {
                                assert(first_target(pre_c, pre_h, wi, buf_cells@, si)
                                    == Option::Some(n as int));
                            }
                        }
                        buf_cells.set(
                            n,
                            MineralCell {
                                mineral_type: c.mineral_type,
                                density: c.density,
                                sampled: c.sampled,
                                mined: true,
                            },
                        );
                        buf_cells.set(
                            i,
                            MineralCell {
                                mineral_type: MineralType::Empty,
                                density: 0,
                                sampled: c.sampled,
                                mined: true,
                            },
                        );
                        buf_heights.set(n, self.heightmap[i]);
                        buf_heights.set(i, 0);
                        proof {
                            let ghost m = (i as int, n as int);
                            assert(ms.push(m).drop_last() =~= ms);
                            ms = ms.push(m);
                            if *old(rng) is Forced {
                                assert(ms == forced_moves_upto(pre_c, pre_h, wi, si + 1));
                            }
                        }
                    } else {
                        proof {
                            if *old(rng) is Forced {
                                assert(forced_moves_upto(pre_c, pre_h, wi, si + 1) == ms);
                            }
                        }
                    }
                } else {
                    proof {
                        if *old(rng) is Forced {
                            assert(first_target(pre_c, pre_h, wi, buf_cells@, si)
                                is None);
                            assert(forced_moves_upto(pre_c, pre_h, wi, si + 1) == ms);
                        }
                    }
                }
            } else {
                proof {
                    if *old(rng) is Forced {
                        assert(!movable(pre_c[si]));
                        assert(first_target(pre_c, pre_h, wi, cells_after(pre_c, ms), si)
                            is None);
                        assert(forced_moves_upto(pre_c, pre_h, wi, si + 1) == ms);
                    }
                }
            }
            i = i + 1;
        }

        self.data = buf_cells;
        self.heightmap = buf_heights;
        proof {
            assert(tick_of(*old(self), *self, ms));
            lemma_count_preserved(pre_c, pre_h, w as int, ms);
            lemma_inv_preserved(pre_c, pre_h, w as int, ms);
            assert forall|i2: int|
                0 <= i2 < old(self).spec_len() && spec_physics(
                    #[trigger] old(self).cells()[i2].mineral_type,
                ) == PhysicsType::Solid implies self.cells()[i2] == old(self).cells()[i2]
                && self.heights()[i2] == old(self).heights()[i2] by {
                lemma_solid_fixed(pre_c, pre_h, w as int, ms, i2);
            }
            if *old(rng) is Forced {
                assert(ms == forced_tick_moves(*old(self)));
            }
        }
    }
}

/// A slot that no move reads or writes keeps its content and height.
proof fn lemma_slot_untouched(
    pre_c: Seq<MineralCell>,
    pre_h: Seq<i64>,
    w: int,
    ms: Seq<(int, int)>,
    x: int,
)
    requires
        moves_ok(pre_c, pre_h, w, ms),
        pre_h.len() == pre_c.len(),
        0 <= x < pre_c.len(),
        forall|k: int| 0 <= k < ms.len() ==> ms[k].0 != x && ms[k].1 != x,
    ensures
        cells_after(pre_c, ms)[x] == pre_c[x],
        heights_after(pre_h, ms)[x] == pre_h[x],
    decreases ms.len(),
{
    if ms.len() != 0 {
        lemma_slot_untouched(pre_c, pre_h, w, ms.drop_last(), x);
        lemma_after_len(pre_c, pre_h, w, ms.drop_last());
    }
}

/// A cell that is empty before a tick and is not the destination of any of
/// its moves is exactly as before afterward.  (An empty cell that *is*
/// claimed receives the moved material: emptiness alone does not pin a
/// cell's content, only solidity does.)
pub proof fn lemma_unclaimed_empty_fixed(
    pre_c: Seq<MineralCell>,
    pre_h: Seq<i64>,
    w: int,
    ms: Seq<(int, int)>,
    x: int,
)
    requires
        moves_ok(pre_c, pre_h, w, ms),
        pre_h.len() == pre_c.len(),
        0 <= x < pre_c.len(),
        spec_physics(pre_c[x].mineral_type) == PhysicsType::Empty,
        forall|k: int| 0 <= k < ms.len() ==> ms[k].1 != x,
    ensures
        cells_after(pre_c, ms)[x] == pre_c[x],
        heights_after(pre_h, ms)[x] == pre_h[x],
{
    assert forall|k: int| 0 <= k < ms.len() implies ms[k].0 != x && ms[k].1 != x by {
        lemma_move_ok_at(pre_c, pre_h, w, ms, k);
        assert(movable(pre_c[ms[k].0]));
    }
    lemma_slot_untouched(pre_c, pre_h, w, ms, x);
}

/// On a one-cell grid no move is possible, so a tick changes nothing.
pub proof fn lemma_unit_grid_fixed(
    pre_c: Seq<MineralCell>,
    pre_h: Seq<i64>,
    ms: Seq<(int, int)>,
)
    requires
        moves_ok(pre_c, pre_h, 1, ms),
        pre_c.len() == 1,
        pre_h.len() == 1,
    ensures
        ms.len() == 0,
        cells_after(pre_c, ms) == pre_c,
        heights_after(pre_h, ms) == pre_h,
{
    if ms.len() != 0 {
        let m = ms.last();
        assert(adjacent(1, 1, m.0, m.1));
        assert(m.0 == 0 && m.1 == 0);
        assert(m.0 % 1int == 0);
        assert(false);
    }
}

/// A tick of a one-by-one grid is a no-op, whatever the random source does:
/// an edge cell only ever considers in-bounds neighbors, and a lone cell
/// has none.
pub proof fn lemma_unit_step_noop(pre: MineralMap, post: MineralMap, ms: Seq<(int, int)>)
    requires
        pre.wf(),
        pre.spec_width() == 1,
        pre.spec_height() == 1,
        tick_of(pre, post, ms),
    ensures
        post.cells() == pre.cells(),
        post.heights() == pre.heights(),
{
    lemma_unit_grid_fixed(pre.cells(), pre.heights(), ms);
}

} // verus!
