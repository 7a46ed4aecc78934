//! Which chunk an entity is in, and which chunks an observer keeps loaded.
use ahash::{AHashSet, RandomState};
use vstd::prelude::*;

verus! {

/// The chunk an entity is in, and the one it was in before.
#[derive(Clone, Copy, Debug, PartialEq, Eq, Structural)]
pub struct ChunkLocationComponent {
    pub last_x: i32,
    pub last_z: i32,
    pub x: i32,
    pub z: i32,
    /// Whether the last update moved the entity to another chunk.
    pub changed: bool,
}

impl ChunkLocationComponent {
    /// An entity in chunk (`x`, `z`), counted as just moved there.
    pub fn new(x: i32, z: i32) -> (c: Self)
        ensures
            c == (ChunkLocationComponent { last_x: 0, last_z: 0, x, z, changed: true }),
    {
        ChunkLocationComponent { last_x: 0, last_z: 0, x, z, changed: true }
    }

    /// The entity is now in chunk (`chunk_x`, `chunk_z`).
    pub fn update(&mut self, chunk_x: i32, chunk_z: i32)
        ensures
            *final(self) == (ChunkLocationComponent {
                last_x: old(self).x,
                last_z: old(self).z,
                x: chunk_x,
                z: chunk_z,
                changed: old(self).x != chunk_x || old(self).z != chunk_z,
            }),
    {
        self.changed = self.x != chunk_x || self.z != chunk_z;
        self.last_x = self.x;
        self.last_z = self.z;
        self.x = chunk_x;
        self.z = chunk_z;
    }
}

/// Two updates to the same chunk: the second reports no change, whatever the
/// first did.
pub proof fn chunk_location_settles(c: ChunkLocationComponent, x: i32, z: i32)
    ensures
        ({
            let once = ChunkLocationComponent { last_x: c.x, last_z: c.z, x, z, changed: c.x != x || c.z != z };
            let twice = ChunkLocationComponent {
                last_x: once.x,
                last_z: once.z,
                x,
                z,
                changed: once.x != x || once.z != z,
            };
            !twice.changed && twice.last_x == x && twice.last_z == z
        }),
{
}

/// Whether offset (`dx`, `dz`) lies on the edge of the square of distance
/// `d`: `d` away on at least one axis.
pub open spec fn on_ring(d: int, dx: int, dz: int) -> bool {
    dx == -d || dx == d || dz == -d || dz == d
}

/// The offsets exactly `d` away on the farther axis: for each `dx` and then
/// each `dz` from `-d` to `d`, those on the edge of the square.
pub open spec fn ring(d: int) -> Seq<(int, int)> {
    rows(d, 2 * d + 1)
}

/// The first `n` rows of the ring of distance `d`.
pub open spec fn rows(d: int, n: int) -> Seq<(int, int)>
    decreases n,
{
    if n <= 0 {
        Seq::empty()
    } else {
        rows(d, n - 1) + row(d, -d + n - 1, 2 * d + 1)
    }
}

/// The offsets among the first `n` columns of the row `dx` that lie on the
/// ring of distance `d`.
pub open spec fn row(d: int, dx: int, n: int) -> Seq<(int, int)>
    decreases n,
{
    if n <= 0 {
        Seq::empty()
    } else {
        let dz = -d + n - 1;
        if on_ring(d, dx, dz) {
            row(d, dx, n - 1).push((dx, dz))
        } else {
            row(d, dx, n - 1)
        }
    }
}

/// The offsets of the rings of distances `0` to `n - 1`, nearest first.
pub open spec fn rings(n: int) -> Seq<(int, int)>
    decreases n,
{
    if n <= 0 {
        Seq::empty()
    } else {
        rings(n - 1) + ring(n - 1)
    }
}

/// Going through `offsets` around (`x`, `z`): each chunk not loaded yet is
/// loaded. Returns the chunks loaded afterwards and those newly loaded, in
/// order.
pub open spec fn load_in_order(
    loaded: Seq<(i32, i32)>,
    x: int,
    z: int,
    offsets: Seq<(int, int)>,
) -> (Seq<(i32, i32)>, Seq<(i32, i32)>)
    decreases offsets.len(),
{
    if offsets.len() == 0 {
        (loaded, Seq::empty())
    } else {
        let (l, new) = load_in_order(loaded, x, z, offsets.drop_last());
        let c = ((x + offsets.last().0) as i32, (z + offsets.last().1) as i32);
        if l.contains(c) {
            (l, new)
        } else {
            (l.push(c), new.push(c))
        }
    }
}

/// Going through `offsets` around (`x`, `z`): each chunk not in the set yet
/// is added. Returns the set afterwards and the chunks added, in order.
pub open spec fn load_into_set(
    loaded: Set<(i32, i32)>,
    x: int,
    z: int,
    offsets: Seq<(int, int)>,
) -> (Set<(i32, i32)>, Seq<(i32, i32)>)
    decreases offsets.len(),
{
    if offsets.len() == 0 {
        (loaded, Seq::empty())
    } else {
        let (l, new) = load_into_set(loaded, x, z, offsets.drop_last());
        let c = chunk_at(x, z, offsets.last());
        if l.contains(c) {
            (l, new)
        } else {
            (l.insert(c), new.push(c))
        }
    }
}

/// Whether a loaded chunk is close enough to (`x`, `z`) to be kept.
pub open spec fn within(c: (i32, i32), x: int, z: int, radius: int) -> bool {
    -radius <= c.0 - x <= radius && -radius <= c.1 - z <= radius
}

/// The chunks at most `radius` away from (`x`, `z`) on both axes.
pub open spec fn square_around(x: int, z: int, radius: int) -> Set<(i32, i32)> {
    Set::new(|c: (i32, i32)| within(c, x, z, radius))
}

/// `ahash`'s hash set, carried through unchanged.
#[verifier::external_type_specification]
#[verifier::external_body]
#[verifier::reject_recursive_types(T)]
#[verifier::reject_recursive_types(S)]
pub struct ExAHashSet<T, S>(AHashSet<T, S>);

/// `ahash`'s hasher builder, carried through unchanged.
#[verifier::external_type_specification]
#[verifier::external_body]
pub struct ExRandomState(RandomState);

/// The chunks an `AHashSet` of chunks holds.
pub uninterp spec fn chunk_set(s: AHashSet<(i32, i32)>) -> Set<(i32, i32)>;

/// Calls `contains` (the set's `HashSet`). Claimed, as `HashSet`
/// documents: whether the set holds `c`.
#[verifier::external_body]
fn chunk_set_contains(s: &AHashSet<(i32, i32)>, c: (i32, i32)) -> (b: bool)
    ensures
        b == chunk_set(*s).contains(c),
{
    s.contains(&c)
}

/// Calls `insert` (the set's `HashSet`). Claimed, as `HashSet` documents:
/// the set holds `c` besides what it held, and the answer is whether it did
/// not hold it before.
#[verifier::external_body]
fn chunk_set_insert(s: &mut AHashSet<(i32, i32)>, c: (i32, i32)) -> (fresh: bool)
    ensures
        chunk_set(*final(s)) == chunk_set(*old(s)).insert(c),
        fresh == !chunk_set(*old(s)).contains(c),
{
    s.insert(c)
}

/// Calls `AHashSet::new`. Claimed, as `HashSet` documents: the set is
/// empty.
#[verifier::external_body]
fn empty_chunk_set() -> (s: AHashSet<(i32, i32)>)
    ensures
        chunk_set(s) == Set::<(i32, i32)>::empty(),
{
    AHashSet::new()
}

/// Copies out the set's chunks (its `HashSet`'s `iter`). Claimed, as
/// `HashSet` documents: each chunk of the set comes once. The order is the
/// hash table's, so nothing is claimed of it.
#[verifier::external_body]
fn chunk_set_items(s: &AHashSet<(i32, i32)>) -> (v: Vec<(i32, i32)>)
    ensures
        v@.to_set() == chunk_set(*s),
        v@.no_duplicates(),
{
    s.iter().copied().collect()
}

/// Calls `retain` (the set's `HashSet`) with `is_within` as the predicate.
/// Claimed, as `HashSet` documents: the set keeps exactly the chunks within
/// `radius` of (`x`, `z`).
#[verifier::external_body]
fn chunk_set_retain_within(s: &mut AHashSet<(i32, i32)>, x: i32, z: i32, radius: i32)
    ensures
        chunk_set(*final(s)) == chunk_set(*old(s)).filter(
            |c: (i32, i32)| within(c, x as int, z as int, radius as int),
        ),
{
    s.retain(|c| is_within(*c, x, z, radius))
}

/// Whether chunk `c` is at most `radius` away from (`x`, `z`) on both axes,
/// by the absolute differences.
fn is_within(c: (i32, i32), x: i32, z: i32, radius: i32) -> (b: bool)
    ensures
        b == within(c, x as int, z as int, radius as int),
{
    let dx = c.0 as i64 - x as i64;
    let dz = c.1 as i64 - z as i64;
    let adx = if dx < 0 { -dx } else { dx };
    let adz = if dz < 0 { -dz } else { dz };
    adx <= radius as i64 && adz <= radius as i64
}

/// Adds chunk `c` to `loaded` and to `new` where `loaded` does not hold it.
fn visit_set(loaded: &mut AHashSet<(i32, i32)>, new: &mut Vec<(i32, i32)>, c: (i32, i32))
    ensures
        chunk_set(*old(loaded)).contains(c) ==> chunk_set(*final(loaded)) == chunk_set(*old(loaded))
            && final(new)@ == old(new)@,
        !chunk_set(*old(loaded)).contains(c) ==> chunk_set(*final(loaded)) == chunk_set(*old(loaded)).insert(c)
            && final(new)@ == old(new)@.push(c),
{
    if !chunk_set_contains(loaded, c) {
        chunk_set_insert(loaded, c);
        new.push(c);
    }
}

/// Keeps the chunks loaded around an entity: every chunk at most `radius`
/// away from the entity's chunk on both axes.
pub struct ChunkObserverComponent {
    pub radius: i32,
    pub loaded_chunks: AHashSet<(i32, i32)>,
}

/// What an observer's owner is to do after the entity moved.
#[derive(Debug)]
pub struct ChunkLoadings {
    /// The chunks to load, nearest first.
    pub load: Vec<(i32, i32)>,
    /// The chunks that fell out of range, to unload.
    pub unload: Vec<(i32, i32)>,
}

impl ChunkObserverComponent {
    /// An observer of `radius` that holds no chunk yet.
    pub fn new(radius: i32) -> (o: Self)
        ensures
            o.radius == radius,
            chunk_set(o.loaded_chunks) == Set::<(i32, i32)>::empty(),
    {
        ChunkObserverComponent { radius, loaded_chunks: empty_chunk_set() }
    }

    /// After the entity moved: forgets the chunks beyond `radius` and hands
    /// them back to unload, then loads, ring by ring from the entity's chunk
    /// outwards, the chunks within `radius` not loaded yet. Nothing happens
    /// where the entity did not change chunk.
    pub fn update_loadings(&mut self, location: &ChunkLocationComponent) -> (r: ChunkLoadings)
        requires
            i32::MIN + old(self).radius <= location.x <= i32::MAX - old(self).radius,
            i32::MIN + old(self).radius <= location.z <= i32::MAX - old(self).radius,
        ensures
            final(self).radius == old(self).radius,
            !location.changed ==> chunk_set(final(self).loaded_chunks) == chunk_set(old(self).loaded_chunks)
                && r.load@.len() == 0 && r.unload@.len() == 0,
            location.changed ==> ({
                let x = location.x as int;
                let z = location.z as int;
                let radius = old(self).radius as int;
                let kept = chunk_set(old(self).loaded_chunks).filter(|c: (i32, i32)| within(c, x, z, radius));
                let (after, new) = load_into_set(kept, x, z, rings(radius + 1));
                &&& chunk_set(final(self).loaded_chunks) == after
                &&& after == square_around(x, z, radius)
                &&& r.load@ == new
                &&& r.unload@.to_set() == chunk_set(old(self).loaded_chunks).filter(
                    |c: (i32, i32)| !within(c, x, z, radius),
                )
                &&& r.unload@.no_duplicates()
            }),
    {
        let mut load: Vec<(i32, i32)> = Vec::new();
        let mut unload: Vec<(i32, i32)> = Vec::new();
        if !location.changed {
            return ChunkLoadings { load, unload };
        }
        let radius = self.radius;
        let x = location.x;
        let z = location.z;
        let ghost far = |c: (i32, i32)| !within(c, x as int, z as int, radius as int);
        let ghost before = chunk_set(self.loaded_chunks);
        let items = chunk_set_items(&self.loaded_chunks);
        let mut i: usize = 0;
        while i < items.len()
            invariant
                i <= items.len(),
                unload@ == items@.take(i as int).filter(far),
                far == (|c: (i32, i32)| !within(c, x as int, z as int, radius as int)),
            decreases items.len() - i,
        {
            let c = items[i];
            proof {
                assert(items@.take(i + 1) =~= items@.take(i as int).push(c));
                items@.take(i as int).lemma_filter_push(c, far);
            }
            if !is_within(c, x, z, radius) {
                unload.push(c);
            }
            i = i + 1;
        }
        proof {
            assert(items@.take(items@.len() as int) =~= items@);
            lemma_filter_no_duplicates(items@, far);
            assert forall|c: (i32, i32)| unload@.to_set().contains(c) <==> before.filter(far).contains(c) by {
                if unload@.contains(c) {
                    items@.lemma_filter_contains_rev(far, c);
                }
                if before.filter(far).contains(c) {
                    assert(items@.to_set().contains(c));
                    let k = choose|k: int| 0 <= k < items@.len() && items@[k] == c;
                    items@.lemma_filter_contains(far, k);
                }
            }
            assert(unload@.to_set() =~= before.filter(far));
        }
        chunk_set_retain_within(&mut self.loaded_chunks, x, z, radius);
        let ghost start = chunk_set(self.loaded_chunks);
        let mut sd: i64 = 0;
        while sd <= radius as i64
            invariant
                0 <= sd,
                radius >= 0 ==> sd <= radius + 1,
                radius < 0 ==> sd == 0,
                self.radius == radius,
                i32::MIN + radius <= x <= i32::MAX - radius,
                i32::MIN + radius <= z <= i32::MAX - radius,
                (chunk_set(self.loaded_chunks), load@) == load_into_set(start, x as int, z as int, rings(sd as int)),
            decreases radius - sd + 1,
        {
            let mut dx: i64 = -sd;
            while dx <= sd
                invariant
                    0 <= sd <= radius,
                    -sd <= dx <= sd + 1,
                    self.radius == radius,
                    i32::MIN + radius <= x <= i32::MAX - radius,
                    i32::MIN + radius <= z <= i32::MAX - radius,
                    (chunk_set(self.loaded_chunks), load@) == load_into_set(
                        start,
                        x as int,
                        z as int,
                        rings(sd as int) + rows(sd as int, dx + sd),
                    ),
                decreases sd - dx + 1,
            {
                let mut dz: i64 = -sd;
                while dz <= sd
                    invariant
                        0 <= sd <= radius,
                        -sd <= dx <= sd,
                        -sd <= dz <= sd + 1,
                        self.radius == radius,
                        i32::MIN + radius <= x <= i32::MAX - radius,
                        i32::MIN + radius <= z <= i32::MAX - radius,
                        (chunk_set(self.loaded_chunks), load@) == load_into_set(
                            start,
                            x as int,
                            z as int,
                            rings(sd as int) + rows(sd as int, dx + sd) + row(sd as int, dx as int, dz + sd),
                        ),
                    decreases sd - dz + 1,
                {
                    let ghost prefix = rings(sd as int) + rows(sd as int, dx + sd) + row(
                        sd as int,
                        dx as int,
                        dz + sd,
                    );
                    if dx == -sd || dx == sd || dz == -sd || dz == sd {
                        let ghost o = (dx as int, dz as int);
                        let c = (x + dx as i32, z + dz as i32);
                        visit_set(&mut self.loaded_chunks, &mut load, c);
                        proof {
                            assert(prefix.push(o).drop_last() =~= prefix);
                            assert(prefix.push(o).last() == o);
                            assert(chunk_at(x as int, z as int, o) == c);
                            assert(row(sd as int, dx as int, dz + sd + 1) =~= row(sd as int, dx as int, dz + sd).push(o));
                            assert(rings(sd as int) + rows(sd as int, dx + sd) + row(sd as int, dx as int, dz + sd + 1)
                                =~= prefix.push(o));
                        }
                    } else {
                        proof {
                            assert(row(sd as int, dx as int, dz + sd + 1) == row(sd as int, dx as int, dz + sd));
                        }
                    }
                    dz = dz + 1;
                }
                proof {
                    assert(rows(sd as int, dx + sd + 1) =~= rows(sd as int, dx + sd) + row(
                        sd as int,
                        dx as int,
                        2 * sd + 1,
                    ));
                    assert(rings(sd as int) + rows(sd as int, dx + sd + 1) =~= rings(sd as int) + rows(
                        sd as int,
                        dx + sd,
                    ) + row(sd as int, dx as int, 2 * sd + 1));
                }
                dx = dx + 1;
            }
            proof {
                assert(rings(sd + 1) =~= rings(sd as int) + rows(sd as int, 2 * sd + 1));
            }
            sd = sd + 1;
        }
        proof {
            if radius < 0 {
                assert(rings(radius + 1) =~= rings(0));
            }
            chunk_observer_coverage(before, x, z, radius);
        }
        ChunkLoadings { load, unload }
    }
}

pub(crate) fn visit(loaded: &mut Vec<(i32, i32)>, new: &mut Vec<(i32, i32)>, cx: i32, cz: i32)
    ensures
        old(loaded)@.contains((cx, cz)) ==> final(loaded)@ == old(loaded)@ && final(new)@ == old(new)@,
        !old(loaded)@.contains((cx, cz)) ==> final(loaded)@ == old(loaded)@.push((cx, cz)) && final(new)@
            == old(new)@.push((cx, cz)),
{
    let mut i: usize = 0;
    while i < loaded.len()
        invariant
            i <= loaded.len(),
            forall|j: int| 0 <= j < i ==> loaded@[j] != (cx, cz),
        decreases loaded.len() - i,
    {
        if loaded[i].0 == cx && loaded[i].1 == cz {
            assert(loaded@[i as int] == (cx, cz));
            return;
        }
        i = i + 1;
    }
    loaded.push((cx, cz));
    new.push((cx, cz));
}

/// The chunk at offset `o` from (`x`, `z`).
pub open spec fn chunk_at(x: int, z: int, o: (int, int)) -> (i32, i32) {
    ((x + o.0) as i32, (z + o.1) as i32)
}

/// `a + b` holds what `a` or `b` holds.
pub(crate) proof fn lemma_concat_contains(a: Seq<(int, int)>, b: Seq<(int, int)>, o: (int, int))
    ensures
        (a + b).contains(o) <==> a.contains(o) || b.contains(o),
{
    if (a + b).contains(o) {
        let k = choose|k: int| 0 <= k < (a + b).len() && (a + b)[k] == o;
        if k < a.len() {
            assert(a[k] == o);
        } else {
            assert(b[k - a.len()] == o);
        }
    }
    if a.contains(o) {
        let k = choose|k: int| 0 <= k < a.len() && a[k] == o;
        assert((a + b)[k] == o);
    }
    if b.contains(o) {
        let k = choose|k: int| 0 <= k < b.len() && b[k] == o;
        assert((a + b)[k + a.len()] == o);
    }
}

proof fn lemma_row_contains(d: int, dx: int, n: int, o: (int, int))
    requires
        n >= 0,
    ensures
        row(d, dx, n).contains(o) <==> o.0 == dx && -d <= o.1 < -d + n && on_ring(d, dx, o.1),
    decreases n,
{
    if n > 0 {
        lemma_row_contains(d, dx, n - 1, o);
        let dz = -d + n - 1;
        let prev = row(d, dx, n - 1);
        if on_ring(d, dx, dz) {
            assert(prev.push((dx, dz)) =~= prev + seq![(dx, dz)]);
            lemma_concat_contains(prev, seq![(dx, dz)], o);
            if o == (dx, dz) {
                assert(seq![(dx, dz)][0] == o);
            }
            if seq![(dx, dz)].contains(o) {
                let k = choose|k: int| 0 <= k < 1 && seq![(dx, dz)][k] == o;
            }
        }
    }
}

proof fn lemma_rows_contains(d: int, n: int, o: (int, int))
    requires
        n >= 0,
        d >= 0,
    ensures
        rows(d, n).contains(o) <==> -d <= o.0 < -d + n && -d <= o.1 <= d && on_ring(d, o.0, o.1),
    decreases n,
{
    if n > 0 {
        lemma_rows_contains(d, n - 1, o);
        lemma_row_contains(d, -d + n - 1, 2 * d + 1, o);
        lemma_concat_contains(rows(d, n - 1), row(d, -d + n - 1, 2 * d + 1), o);
    }
}

/// The rings below `n` hold exactly the offsets less than `n` away on both
/// axes.
proof fn lemma_rings_contains(n: int, o: (int, int))
    requires
        n >= 0,
    ensures
        rings(n).contains(o) <==> -n < o.0 < n && -n < o.1 < n,
    decreases n,
{
    if n > 0 {
        let d = n - 1;
        lemma_rings_contains(d, o);
        lemma_rows_contains(d, 2 * d + 1, o);
        lemma_concat_contains(rings(d), ring(d), o);
    }
}

/// Loading through `offsets` appends the new chunks, each once, to the
/// loaded ones, and leaves the chunk of every offset loaded.
pub(crate) proof fn lemma_load_in_order(loaded: Seq<(i32, i32)>, x: int, z: int, offsets: Seq<(int, int)>)
    requires
        loaded.no_duplicates(),
    ensures
        ({
            let (after, new) = load_in_order(loaded, x, z, offsets);
            &&& after == loaded + new
            &&& after.no_duplicates()
            &&& forall|i: int| 0 <= i < offsets.len() ==> after.contains(#[trigger] chunk_at(x, z, offsets[i]))
            &&& forall|j: int| #![trigger new[j]]
                0 <= j < new.len() ==> exists|i: int| 0 <= i < offsets.len() && new[j] == #[trigger] chunk_at(x, z, offsets[i])
        }),
    decreases offsets.len(),
{
    if offsets.len() > 0 {
        let init = offsets.drop_last();
        lemma_load_in_order(loaded, x, z, init);
        let (l, new) = load_in_order(loaded, x, z, init);
        let c = chunk_at(x, z, offsets.last());
        assert forall|i: int| 0 <= i < init.len() implies #[trigger] offsets[i] == init[i] by {}
        if !l.contains(c) {
            assert(l.push(c) =~= loaded + new.push(c));
            assert forall|a: int, b: int| 0 <= a < b < l.push(c).len() implies l.push(c)[a] != l.push(c)[b] by {
                if b == l.len() {
                    assert(l[a] == l.push(c)[a]);
                }
            }
            assert forall|i: int| 0 <= i < offsets.len() implies l.push(c).contains(#[trigger] chunk_at(x, z, offsets[i])) by {
                if i < init.len() {
                    assert(chunk_at(x, z, offsets[i]) == chunk_at(x, z, init[i]));
                    let k = choose|k: int| 0 <= k < l.len() && l[k] == chunk_at(x, z, init[i]);
                    assert(l.push(c)[k] == l[k]);
                } else {
                    assert(l.push(c)[l.len() as int] == c);
                }
            }
            assert forall|j: int| #![trigger new.push(c)[j]] 0 <= j < new.push(c).len() implies exists|i: int|
                0 <= i < offsets.len() && new.push(c)[j] == #[trigger] chunk_at(x, z, offsets[i]) by {
                if j < new.len() {
                    let i = choose|i: int| 0 <= i < init.len() && new[j] == #[trigger] chunk_at(x, z, init[i]);
                    assert(new.push(c)[j] == chunk_at(x, z, offsets[i]));
                } else {
                    assert(new.push(c)[j] == chunk_at(x, z, offsets[offsets.len() - 1]));
                }
            }
        } else {
            assert forall|i: int| 0 <= i < offsets.len() implies l.contains(#[trigger] chunk_at(x, z, offsets[i])) by {
                if i < init.len() {
                    assert(chunk_at(x, z, offsets[i]) == chunk_at(x, z, init[i]));
                }
            }
            assert forall|j: int| #![trigger new[j]] 0 <= j < new.len() implies exists|i: int|
                0 <= i < offsets.len() && new[j] == #[trigger] chunk_at(x, z, offsets[i]) by {
                let i = choose|i: int| 0 <= i < init.len() && new[j] == #[trigger] chunk_at(x, z, init[i]);
                assert(new[j] == chunk_at(x, z, offsets[i]));
            }
        }
    }
}

pub(crate) proof fn lemma_filter_no_duplicates(s: Seq<(i32, i32)>, pred: spec_fn((i32, i32)) -> bool)
    requires
        s.no_duplicates(),
    ensures
        s.filter(pred).no_duplicates(),
    decreases s.len(),
{
    if s.len() > 0 {
        let init = s.drop_last();
        assert forall|a: int, b: int| 0 <= a < init.len() && 0 <= b < init.len() && a != b implies init[a]
            != init[b] by {
            assert(init[a] == s[a] && init[b] == s[b]);
        }
        lemma_filter_no_duplicates(init, pred);
        let f = init.filter(pred);
        assert(init.push(s.last()) =~= s);
        init.lemma_filter_push(s.last(), pred);
        if pred(s.last()) {
            if f.contains(s.last()) {
                init.lemma_filter_contains_rev(pred, s.last());
                let k = choose|k: int| 0 <= k < init.len() && init[k] == s.last();
                assert(s[k] == s[s.len() - 1]);
            }
            assert forall|a: int, b: int|
                0 <= a < f.push(s.last()).len() && 0 <= b < f.push(s.last()).len() && a != b implies f.push(
                s.last(),
            )[a] != f.push(s.last())[b] by {
                if b == f.len() {
                    assert(f.push(s.last())[a] == f[a]);
                    assert(f.contains(f[a]));
                } else if a == f.len() {
                    assert(f.push(s.last())[b] == f[b]);
                    assert(f.contains(f[b]));
                }
            }
        }
    }
}

/// Loading through `offsets` adds the new chunks, each once and none held
/// before, and leaves the chunk of every offset held.
proof fn lemma_load_into_set(loaded: Set<(i32, i32)>, x: int, z: int, offsets: Seq<(int, int)>)
    ensures
        ({
            let (after, new) = load_into_set(loaded, x, z, offsets);
            &&& after == loaded.union(new.to_set())
            &&& new.no_duplicates()
            &&& forall|j: int| 0 <= j < new.len() ==> !loaded.contains(#[trigger] new[j])
            &&& forall|i: int| 0 <= i < offsets.len() ==> after.contains(#[trigger] chunk_at(x, z, offsets[i]))
            &&& forall|j: int| #![trigger new[j]]
                0 <= j < new.len() ==> exists|i: int| 0 <= i < offsets.len() && new[j] == #[trigger] chunk_at(x, z, offsets[i])
        }),
    decreases offsets.len(),
{
    if offsets.len() > 0 {
        let init = offsets.drop_last();
        lemma_load_into_set(loaded, x, z, init);
        let (l, new) = load_into_set(loaded, x, z, init);
        let c = chunk_at(x, z, offsets.last());
        assert forall|i: int| 0 <= i < init.len() implies #[trigger] offsets[i] == init[i] by {}
        if !l.contains(c) {
            assert(l.insert(c) =~= loaded.union(new.push(c).to_set())) by {
                assert forall|e: (i32, i32)| new.push(c).contains(e) <==> new.contains(e) || e == c by {
                    if new.push(c).contains(e) {
                        let k = choose|k: int| 0 <= k < new.push(c).len() && new.push(c)[k] == e;
                        if k < new.len() {
                            assert(new[k] == e);
                        }
                    }
                    if new.contains(e) {
                        let k = choose|k: int| 0 <= k < new.len() && new[k] == e;
                        assert(new.push(c)[k] == e);
                    }
                    if e == c {
                        assert(new.push(c)[new.len() as int] == c);
                    }
                }
            }
            assert forall|a: int, b: int|
                0 <= a < new.push(c).len() && 0 <= b < new.push(c).len() && a != b implies new.push(c)[a]
                != new.push(c)[b] by {
                if b == new.len() {
                    assert(new.contains(new[a]));
                } else if a == new.len() {
                    assert(new.contains(new[b]));
                }
            }
            assert forall|j: int| 0 <= j < new.push(c).len() implies !loaded.contains(#[trigger] new.push(c)[j]) by {
                if j == new.len() {
                    assert(new.push(c)[j] == c);
                } else {
                    assert(new.push(c)[j] == new[j]);
                }
            }
            assert forall|i: int| 0 <= i < offsets.len() implies l.insert(c).contains(#[trigger] chunk_at(x, z, offsets[i])) by {
                if i < init.len() {
                    assert(chunk_at(x, z, offsets[i]) == chunk_at(x, z, init[i]));
                }
            }
            assert forall|j: int| #![trigger new.push(c)[j]] 0 <= j < new.push(c).len() implies exists|i: int|
                0 <= i < offsets.len() && new.push(c)[j] == #[trigger] chunk_at(x, z, offsets[i]) by {
                if j < new.len() {
                    let i = choose|i: int| 0 <= i < init.len() && new[j] == #[trigger] chunk_at(x, z, init[i]);
                    assert(new.push(c)[j] == chunk_at(x, z, offsets[i]));
                } else {
                    assert(new.push(c)[j] == chunk_at(x, z, offsets[offsets.len() - 1]));
                }
            }
        } else {
            assert forall|i: int| 0 <= i < offsets.len() implies l.contains(#[trigger] chunk_at(x, z, offsets[i])) by {
                if i < init.len() {
                    assert(chunk_at(x, z, offsets[i]) == chunk_at(x, z, init[i]));
                }
            }
            assert forall|j: int| #![trigger new[j]] 0 <= j < new.len() implies exists|i: int|
                0 <= i < offsets.len() && new[j] == #[trigger] chunk_at(x, z, offsets[i]) by {
                let i = choose|i: int| 0 <= i < init.len() && new[j] == #[trigger] chunk_at(x, z, init[i]);
                assert(new[j] == chunk_at(x, z, offsets[i]));
            }
        }
    }
}

/// After an update around (`x`, `z`), an observer holds exactly the chunks
/// at most `radius` away on both axes; what it holds is what it kept and
/// what it newly loads, each of those once and none of them kept already.
pub proof fn chunk_observer_coverage(loaded: Set<(i32, i32)>, x: i32, z: i32, radius: i32)
    requires
        i32::MIN + radius <= x <= i32::MAX - radius,
        i32::MIN + radius <= z <= i32::MAX - radius,
    ensures
        ({
            let kept = loaded.filter(|c: (i32, i32)| within(c, x as int, z as int, radius as int));
            let (after, new) = load_into_set(kept, x as int, z as int, rings(radius + 1));
            &&& after == kept.union(new.to_set())
            &&& after == square_around(x as int, z as int, radius as int)
            &&& new.no_duplicates()
            &&& forall|j: int| 0 <= j < new.len() ==> !kept.contains(#[trigger] new[j])
        }),
{
    let pred = |c: (i32, i32)| within(c, x as int, z as int, radius as int);
    let kept = loaded.filter(pred);
    let offsets = rings(radius + 1);
    lemma_load_into_set(kept, x as int, z as int, offsets);
    let (after, new) = load_into_set(kept, x as int, z as int, offsets);
    let square = square_around(x as int, z as int, radius as int);
    assert forall|c: (i32, i32)| after.contains(c) <==> square.contains(c) by {
        if after.contains(c) && !kept.contains(c) {
            assert(new.to_set().contains(c));
            let j = choose|j: int| 0 <= j < new.len() && new[j] == c;
            let k = choose|k: int| 0 <= k < offsets.len() && new[j] == #[trigger] chunk_at(x as int, z as int, offsets[k]);
            if radius + 1 >= 0 {
                lemma_rings_contains(radius + 1, offsets[k]);
            }
            assert(offsets.contains(offsets[k]));
        }
        if square.contains(c) {
            let o = (c.0 - x, c.1 - z);
            lemma_rings_contains(radius + 1, o);
            let k = choose|k: int| 0 <= k < offsets.len() && offsets[k] == o;
            assert(chunk_at(x as int, z as int, offsets[k]) == c);
        }
    }
    assert(after =~= square);
}

} // verus!
