//! Which chunks a player of a chunk pool is sent when it moves: the square of
//! the view distance around its chunk is loaded, and what lies too far is
//! unloaded.
use crate::entity::chunk::{
    chunk_at, lemma_concat_contains, lemma_filter_no_duplicates, lemma_load_in_order, load_in_order, visit,
};
use crate::packets::div_toward_zero;
use std::collections::HashMap;
use vstd::prelude::*;

verus! {

/// The offsets from `lo` to `hi - 1` on both axes, the first axis outer.
pub open spec fn square(lo: int, hi: int) -> Seq<(int, int)> {
    square_rows(lo, hi, hi - lo)
}

/// The first `n` rows of `square(lo, hi)`.
pub open spec fn square_rows(lo: int, hi: int, n: int) -> Seq<(int, int)>
    decreases n,
{
    if n <= 0 {
        Seq::empty()
    } else {
        square_rows(lo, hi, n - 1) + square_row(lo + n - 1, lo, hi - lo)
    }
}

/// The first `n` offsets of the row `dx`, starting at `lo`.
pub open spec fn square_row(dx: int, lo: int, n: int) -> Seq<(int, int)>
    decreases n,
{
    if n <= 0 {
        Seq::empty()
    } else {
        square_row(dx, lo, n - 1).push((dx, lo + n - 1))
    }
}

/// Whether chunk `c` is at least `half` away from (`x`, `z`) on an axis.
pub open spec fn too_far(c: (i32, i32), x: int, z: int, half: int) -> bool {
    let dx = c.0 - x;
    let dz = c.1 - z;
    (if dx < 0 { -dx } else { dx }) >= half || (if dz < 0 { -dz } else { dz }) >= half
}

/// The chunks less than `half` away from (`x`, `z`) on both axes.
pub open spec fn near_square(x: int, z: int, half: int) -> Set<(i32, i32)> {
    Set::new(|c: (i32, i32)| !too_far(c, x, z, half))
}

pub open spec fn abs(v: int) -> int {
    if v < 0 {
        -v
    } else {
        v
    }
}

/// What to send a player after it moved to another chunk.
#[derive(Debug)]
pub struct ViewUpdate {
    /// The chunks to send, in order.
    pub load: Vec<(i32, i32)>,
    /// The chunks to unload.
    pub unload: Vec<(i32, i32)>,
    /// The chunk the client's view is centred on from now on.
    pub center: (i32, i32),
}

/// What a tick does for one player: nothing where it is synced at its
/// current chunk; else the chunks to load and to unload, and the chunks it
/// holds afterwards (`before` and `held`), as `update_view` computes them.
pub open spec fn view_updated(
    view_distance: i32,
    synced: Option<(i32, i32)>,
    current: (i32, i32),
    before: Seq<(i32, i32)>,
    held: Seq<(i32, i32)>,
    r: Option<ViewUpdate>,
) -> bool {
    &&& (synced == Some(current) ==> r is None && held == before)
    &&& (synced != Some(current) ==> ({
            let half = div_toward_zero(view_distance as int, 2);
            let lo = div_toward_zero(-view_distance, 2);
            let (after, new) = load_in_order(
                before,
                current.0 as int,
                current.1 as int,
                square(lo, half),
            );
            &&& r matches Some(u) && u.load@ == new && u.center == current
                && u.unload@ == after.filter(|c: (i32, i32)| too_far(c, current.0 as int, current.1 as int, half))
            &&& held == after.filter(
                |c: (i32, i32)| !too_far(c, current.0 as int, current.1 as int, half),
            )
            &&& held.no_duplicates()
            &&& held.to_set() == near_square(current.0 as int, current.1 as int, half)
        }))
}

/// One tick of a chunk pool for one player, whose chunk is now `current`
/// and was `synced` when the player was last brought up to date; `loaded`
/// are the chunks the player holds. Where the player changed chunk, every
/// chunk at an offset from `-view_distance / 2` to `view_distance / 2 - 1`
/// on both axes that it does not hold is loaded, first axis outer; then
/// every chunk it holds that lies `view_distance / 2` or more away on an
/// axis is unloaded (the pool's set has no order; here they come in the
/// order the player holds them).
pub fn update_view(view_distance: i32, synced: Option<(i32, i32)>, current: (i32, i32), loaded: &mut Vec<
    (i32, i32),
>) -> (r: Option<ViewUpdate>)
    requires
        view_distance > i32::MIN,
        i32::MIN + abs(view_distance as int) / 2 <= current.0 <= i32::MAX - abs(view_distance as int) / 2,
        i32::MIN + abs(view_distance as int) / 2 <= current.1 <= i32::MAX - abs(view_distance as int) / 2,
        old(loaded)@.no_duplicates(),
    ensures
        view_updated(view_distance, synced, current, old(loaded)@, final(loaded)@, r),
{
    if synced == Some(current) {
        return None;
    }
    let (x, z) = current;
    let half = view_distance / 2;
    let lo = -view_distance / 2;
    let ghost offsets = square(lo as int, half as int);
    let ghost start = loaded@;
    let mut load: Vec<(i32, i32)> = Vec::new();
    let mut dx = lo;
    while dx < half
        invariant
            lo <= dx,
            lo < half ==> dx <= half,
            lo == div_toward_zero(-view_distance, 2),
            half == div_toward_zero(view_distance as int, 2),
            view_distance > i32::MIN,
            i32::MIN + abs(view_distance as int) / 2 <= x <= i32::MAX - abs(view_distance as int) / 2,
            i32::MIN + abs(view_distance as int) / 2 <= z <= i32::MAX - abs(view_distance as int) / 2,
            (loaded@, load@) == load_in_order(start, x as int, z as int, square_rows(lo as int, half as int, dx - lo)),
            lo >= half ==> dx == lo,
        decreases half - dx,
    {
        let mut dz = lo;
        while dz < half
            invariant
                lo <= dx < half,
                lo <= dz <= half,
                lo == div_toward_zero(-view_distance, 2),
                half == div_toward_zero(view_distance as int, 2),
                view_distance > i32::MIN,
                i32::MIN + abs(view_distance as int) / 2 <= x <= i32::MAX - abs(view_distance as int) / 2,
                i32::MIN + abs(view_distance as int) / 2 <= z <= i32::MAX - abs(view_distance as int) / 2,
                (loaded@, load@) == load_in_order(
                    start,
                    x as int,
                    z as int,
                    square_rows(lo as int, half as int, dx - lo) + square_row(dx as int, lo as int, dz - lo),
                ),
            decreases half - dz,
        {
            let ghost prefix = square_rows(lo as int, half as int, dx - lo) + square_row(
                dx as int,
                lo as int,
                dz - lo,
            );
            visit(loaded, &mut load, x + dx, z + dz);
            proof {
                let o = (dx as int, dz as int);
                assert(prefix.push(o).drop_last() =~= prefix);
                assert(square_row(dx as int, lo as int, dz - lo + 1) =~= square_row(dx as int, lo as int, dz - lo).push(o));
                assert(square_rows(lo as int, half as int, dx - lo) + square_row(dx as int, lo as int, dz - lo + 1)
                    =~= prefix.push(o));
            }
            dz = dz + 1;
        }
        proof {
            assert(square_rows(lo as int, half as int, dx - lo + 1) =~= square_rows(lo as int, half as int, dx - lo)
                + square_row(dx as int, lo as int, half - lo));
        }
        dx = dx + 1;
    }
    proof {
        if lo < half {
            assert(dx == half);
        } else {
            assert(square(lo as int, half as int) =~= Seq::<(int, int)>::empty());
            assert(square_rows(lo as int, half as int, dx - lo) =~= Seq::<(int, int)>::empty());
        }
    }
    let ghost after = loaded@;
    let ghost far = |c: (i32, i32)| too_far(c, x as int, z as int, half as int);
    let ghost near = |c: (i32, i32)| !too_far(c, x as int, z as int, half as int);
    let mut kept: Vec<(i32, i32)> = Vec::new();
    let mut unload: Vec<(i32, i32)> = Vec::new();
    let mut i: usize = 0;
    while i < loaded.len()
        invariant
            loaded@ == after,
            i <= after.len(),
            kept@ == after.take(i as int).filter(near),
            unload@ == after.take(i as int).filter(far),
            far == (|c: (i32, i32)| too_far(c, x as int, z as int, half as int)),
            near == (|c: (i32, i32)| !too_far(c, x as int, z as int, half as int)),
        decreases after.len() - i,
    {
        let c = loaded[i];
        let ddx = c.0 as i64 - x as i64;
        let ddz = c.1 as i64 - z as i64;
        let adx = if ddx < 0 { -ddx } else { ddx };
        let adz = if ddz < 0 { -ddz } else { ddz };
        proof {
            assert(after.take(i + 1) =~= after.take(i as int).push(c));
            after.take(i as int).lemma_filter_push(c, near);
            after.take(i as int).lemma_filter_push(c, far);
        }
        if adx >= half as i64 || adz >= half as i64 {
            unload.push(c);
        } else {
            kept.push(c);
        }
        i = i + 1;
    }
    proof {
        assert(after.take(after.len() as int) =~= after);
        view_update_holds_near_chunks(start, x, z, view_distance);
    }
    *loaded = kept;
    Some(ViewUpdate { load, unload, center: current })
}


/// The chunks a pool has brought its players up to date with: for each
/// player's entity id, the chunk it was in at its last update.
pub struct ChunkPool {
    pub view_distance: i32,
    synced_player_chunks: HashMap<i32, (i32, i32)>,
}

impl ChunkPool {
    /// The view distance.
    pub closed spec fn distance(&self) -> i32 {
        self.view_distance
    }

    /// Each player's chunk at its last update.
    pub closed spec fn synced(&self) -> Map<i32, (i32, i32)> {
        self.synced_player_chunks@
    }

    /// The chunk at which player `eid` was last brought up to date, if any.
    pub open spec fn synced_at(&self, eid: i32) -> Option<(i32, i32)> {
        if self.synced().contains_key(eid) {
            Some(self.synced()[eid])
        } else {
            None
        }
    }

    /// A pool that has synced no player yet.
    pub fn new(view_distance: i32) -> (p: Self)
        ensures
            p.distance() == view_distance,
            p.synced() == Map::<i32, (i32, i32)>::empty(),
    {
        ChunkPool { view_distance, synced_player_chunks: HashMap::new() }
    }

    /// One tick for player `eid`, now in chunk `current` and holding the
    /// chunks `loaded`: `update_view` with the chunk the pool last synced
    /// the player at, after which the player counts as synced at `current`.
    /// So a tick that finds the player where it was last synced does
    /// nothing.
    pub fn tick_player(&mut self, eid: i32, current: (i32, i32), loaded: &mut Vec<(i32, i32)>) -> (r:
        Option<ViewUpdate>)
        requires
            old(self).distance() > i32::MIN,
            i32::MIN + abs(old(self).distance() as int) / 2 <= current.0 <= i32::MAX - abs(
                old(self).distance() as int,
            ) / 2,
            i32::MIN + abs(old(self).distance() as int) / 2 <= current.1 <= i32::MAX - abs(
                old(self).distance() as int,
            ) / 2,
            old(loaded)@.no_duplicates(),
        ensures
            final(self).distance() == old(self).distance(),
            view_updated(
                old(self).distance(),
                old(self).synced_at(eid),
                current,
                old(loaded)@,
                final(loaded)@,
                r,
            ),
            final(self).synced() == old(self).synced().insert(eid, current),
            final(self).synced_at(eid) == Some(current),
    {
        broadcast use vstd::std_specs::hash::group_hash_axioms;

        let synced = match self.synced_player_chunks.get(&eid) {
            Some(c) => Some(*c),
            None => None,
        };
        let r = update_view(self.view_distance, synced, current, loaded);
        self.synced_player_chunks.insert(eid, current);
        r
    }

    /// Forgets player `eid`.
    pub fn remove_player(&mut self, eid: i32)
        ensures
            final(self).distance() == old(self).distance(),
            final(self).synced() == old(self).synced().remove(eid),
    {
        broadcast use vstd::std_specs::hash::group_hash_axioms;

        self.synced_player_chunks.remove(&eid);
    }
}

/// `square(lo, hi)` holds exactly the offsets from `lo` to `hi - 1` on both
/// axes.
proof fn lemma_square_contains(lo: int, hi: int, o: (int, int))
    ensures
        square(lo, hi).contains(o) <==> lo <= o.0 < hi && lo <= o.1 < hi,
{
    if hi > lo {
        lemma_square_rows_contains(lo, hi, hi - lo, o);
    }
}

proof fn lemma_square_rows_contains(lo: int, hi: int, n: int, o: (int, int))
    requires
        0 <= n,
        lo < hi,
    ensures
        square_rows(lo, hi, n).contains(o) <==> lo <= o.0 < lo + n && lo <= o.1 < hi,
    decreases n,
{
    if n > 0 {
        lemma_square_rows_contains(lo, hi, n - 1, o);
        lemma_square_row_contains(lo + n - 1, lo, hi - lo, o);
        lemma_concat_contains(square_rows(lo, hi, n - 1), square_row(lo + n - 1, lo, hi - lo), o);
    }
}

proof fn lemma_square_row_contains(dx: int, lo: int, n: int, o: (int, int))
    requires
        0 <= n,
    ensures
        square_row(dx, lo, n).contains(o) <==> o.0 == dx && lo <= o.1 < lo + n,
    decreases n,
{
    if n > 0 {
        let prev = square_row(dx, lo, n - 1);
        let one = seq![(dx, lo + n - 1)];
        lemma_square_row_contains(dx, lo, n - 1, o);
        assert(prev.push((dx, lo + n - 1)) =~= prev + one);
        lemma_concat_contains(prev, one, o);
        if o == (dx, lo + n - 1) {
            assert(one[0] == o);
        }
        if one.contains(o) {
            let k = choose|k: int| 0 <= k < one.len() && #[trigger] one[k] == o;
            assert(one[k] == (dx, lo + n - 1));
        }
    }
}

/// After a view update around (`x`, `z`), a player that held each chunk
/// once still does, and it holds exactly the chunks less than
/// `view_distance / 2` away on both axes.
pub proof fn view_update_holds_near_chunks(loaded: Seq<(i32, i32)>, x: i32, z: i32, view_distance: i32)
    requires
        loaded.no_duplicates(),
    ensures
        ({
            let half = div_toward_zero(view_distance as int, 2);
            let offsets = square(div_toward_zero(-view_distance, 2), half);
            let (after, new) = load_in_order(loaded, x as int, z as int, offsets);
            let held = after.filter(|c: (i32, i32)| !too_far(c, x as int, z as int, half));
            &&& held.no_duplicates()
            &&& held.to_set() == near_square(x as int, z as int, half)
        }),
{
    let half = div_toward_zero(view_distance as int, 2);
    let lo = div_toward_zero(-view_distance, 2);
    let offsets = square(lo, half);
    let near = |c: (i32, i32)| !too_far(c, x as int, z as int, half);
    lemma_load_in_order(loaded, x as int, z as int, offsets);
    let (after, new) = load_in_order(loaded, x as int, z as int, offsets);
    lemma_filter_no_duplicates(after, near);
    let held = after.filter(near);
    assert forall|c: (i32, i32)| held.to_set().contains(c) <==> near_square(x as int, z as int, half).contains(c) by {
        if held.contains(c) {
            after.lemma_filter_contains_rev(near, c);
        }
        if near(c) {
            let o = (c.0 - x, c.1 - z);
            lemma_square_contains(lo, half, o);
            let k = choose|k: int| 0 <= k < offsets.len() && offsets[k] == o;
            assert(chunk_at(x as int, z as int, offsets[k]) == c);
            assert(after.contains(c));
            let m = choose|m: int| 0 <= m < after.len() && after[m] == c;
            after.lemma_filter_contains(near, m);
        }
    }
    assert(held.to_set() =~= near_square(x as int, z as int, half));
}

} // verus!
