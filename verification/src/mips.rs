use vstd::prelude::*;

use crate::grid::{Rgba, VoxelGrid, VoxelPos};

verus! {

/// `floor(log2(n))`, with `0` for `n < 2`.
pub open spec fn floor_log2(n: nat) -> nat
    decreases n,
{
    if n < 2 {
        0
    } else {
        1 + floor_log2(n / 2)
    }
}

/// `floor_log2` of anything below `pow2(k)` is below `k`.
proof fn lemma_floor_log2_bound(n: nat, k: nat)
    requires
        k >= 1,
        n < vstd::arithmetic::power2::pow2(k),
    ensures
        floor_log2(n) <= k - 1,
    decreases k,
{
    if n >= 2 {
        vstd::arithmetic::power2::lemma2_to64();
        vstd::arithmetic::power2::lemma_pow2_unfold(k);
        assert(k >= 2);
        lemma_floor_log2_bound(n / 2, (k - 1) as nat);
    }
}

/// How many mip levels the volume carries above its base level:
/// `floor(log2(min(width, height, length))) - 1`, clamped at zero.
pub open spec fn spec_mip_levels(width: nat, height: nat, length: nat) -> nat {
    let m = vstd::math::min(vstd::math::min(width as int, height as int), length as int);
    if floor_log2(m as nat) >= 1 {
        (floor_log2(m as nat) - 1) as nat
    } else {
        0
    }
}

/// `floor(log2(n))` of a machine word.
fn floor_log2_exec(n: usize) -> (r: u32)
    ensures
        r == floor_log2(n as nat),
        r <= 63,
{
    proof {
        vstd::arithmetic::power2::lemma2_to64();
        assert(usize::MAX < vstd::arithmetic::power2::pow2(64));
        lemma_floor_log2_bound(n as nat, 64);
    }
    let mut v: usize = n;
    let mut lg: u32 = 0;
    while v >= 2
        invariant
            floor_log2(n as nat) == lg + floor_log2(v as nat),
            lg <= floor_log2(n as nat),
            floor_log2(n as nat) <= 63,
        decreases v,
    {
        v = v / 2;
        lg = lg + 1;
    }
    lg
}

/// Mip level count above the base level for a volume of the given size.
pub fn mip_level_count(width: usize, height: usize, length: usize) -> (r: u32)
    ensures
        r == spec_mip_levels(width as nat, height as nat, length as nat),
        r <= 62,
{
    let m = if width < height {
        width
    } else {
        height
    };
    let m = if m < length {
        m
    } else {
        length
    };
    let lg = floor_log2_exec(m);
    if lg >= 1 {
        lg - 1
    } else {
        0
    }
}

/// The level-above parent of a voxel position: every coordinate halves.
pub open spec fn spec_parent(p: VoxelPos) -> VoxelPos {
    VoxelPos { x: (p.x / 2) as usize, y: (p.y / 2) as usize, z: (p.z / 2) as usize }
}

/// The level-above parent of a voxel position.
pub fn parent_position(p: VoxelPos) -> (r: VoxelPos)
    ensures
        r == spec_parent(p),
{
    VoxelPos { x: p.x / 2, y: p.y / 2, z: p.z / 2 }
}

/// The input with later repetitions of a position removed: each position
/// keeps its first occurrence only.
pub open spec fn spec_dedup(s: Seq<VoxelPos>) -> Seq<VoxelPos>
    decreases s.len(),
{
    if s.len() == 0 {
        Seq::empty()
    } else {
        let rest = spec_dedup(s.drop_last());
        if rest.contains(s.last()) {
            rest
        } else {
            rest.push(s.last())
        }
    }
}

/// Deduplication never grows a sequence.
pub proof fn lemma_dedup_len(s: Seq<VoxelPos>)
    ensures
        spec_dedup(s).len() <= s.len(),
    decreases s.len(),
{
    if s.len() > 0 {
        lemma_dedup_len(s.drop_last());
    }
}

/// Deduplication keeps exactly the positions of the input.
pub proof fn lemma_dedup_contains(s: Seq<VoxelPos>, p: VoxelPos)
    ensures
        spec_dedup(s).contains(p) <==> s.contains(p),
    decreases s.len(),
{
    if s.len() > 0 {
        let rest = spec_dedup(s.drop_last());
        lemma_dedup_contains(s.drop_last(), p);
        if s.contains(p) {
            let i = choose|i: int| 0 <= i < s.len() && s[i] == p;
            if i < s.len() - 1 {
                assert(s.drop_last()[i] == p);
                assert(s.drop_last().contains(p));
                if !rest.contains(s.last()) {
                    assert(rest.push(s.last())[choose|j: int|
                        0 <= j < rest.len() && rest[j] == p] == p);
                }
            } else {
                assert(p == s.last());
                if !rest.contains(s.last()) {
                    assert(rest.push(s.last())[rest.len() as int] == p);
                }
            }
            assert(spec_dedup(s).contains(p));
        }
        if spec_dedup(s).contains(p) {
            if rest.contains(s.last()) {
                assert(rest.contains(p));
            } else {
                let j = choose|j: int|
                    0 <= j < spec_dedup(s).len() && spec_dedup(s)[j] == p;
                if j < rest.len() {
                    assert(rest[j] == p);
                    assert(rest.contains(p));
                } else {
                    assert(p == s.last());
                }
            }
            if p != s.last() || rest.contains(p) {
                if rest.contains(p) {
                    assert(s.drop_last().contains(p));
                    let i = choose|i: int|
                        0 <= i < s.drop_last().len() && s.drop_last()[i] == p;
                    assert(s[i] == p);
                }
            }
            assert(s.contains(p)) by {
                if p == s.last() {
                    assert(s[s.len() - 1] == p);
                }
            }
        }
    }
}

/// Deduplication leaves no position twice.
pub proof fn lemma_dedup_distinct(s: Seq<VoxelPos>)
    ensures
        forall|i: int, j: int|
            0 <= i < j < spec_dedup(s).len() ==> spec_dedup(s)[i] != spec_dedup(s)[j],
    decreases s.len(),
{
    if s.len() > 0 {
        let rest = spec_dedup(s.drop_last());
        lemma_dedup_distinct(s.drop_last());
        if !rest.contains(s.last()) {
            assert forall|i: int, j: int|
                0 <= i < j < spec_dedup(s).len() implies spec_dedup(s)[i] != spec_dedup(
                s,
            )[j] by {
                if j == rest.len() {
                    assert(spec_dedup(s)[j] == s.last());
                    assert(spec_dedup(s)[i] == rest[i]);
                    if rest[i] == s.last() {
                        assert(rest.contains(s.last()));
                    }
                }
            }
        }
    }
}

/// A nonempty input deduplicates to a nonempty output.
pub proof fn lemma_dedup_nonempty(s: Seq<VoxelPos>)
    requires
        s.len() > 0,
    ensures
        spec_dedup(s).len() > 0,
    decreases s.len(),
{
    if s.len() > 1 {
        lemma_dedup_nonempty(s.drop_last());
    }
}

/// Whether `v` holds position `p`.
fn contains_pos(v: &Vec<VoxelPos>, p: VoxelPos) -> (r: bool)
    ensures
        r == v@.contains(p),
{
    let n = v.len();
    let mut i: usize = 0;
    while i < n
        invariant
            n == v@.len(),
            i <= n,
            forall|j: int| 0 <= j < i ==> v@[j] != p,
        decreases n - i,
    {
        if v[i].x == p.x && v[i].y == p.y && v[i].z == p.z {
            assert(v@.contains(p)) by {
                assert(v@[i as int] == p);
            }
            return true;
        }
        i += 1;
    }
    false
}

/// Remove every repeated position, keeping first occurrences in order.
pub fn dedup_positions(xs: &Vec<VoxelPos>) -> (r: Vec<VoxelPos>)
    ensures
        r@ == spec_dedup(xs@),
{
    let n = xs.len();
    let mut r: Vec<VoxelPos> = Vec::new();
    let mut i: usize = 0;
    while i < n
        invariant
            n == xs@.len(),
            i <= n,
            r@ == spec_dedup(xs@.subrange(0, i as int)),
        decreases n - i,
    {
        proof {
            assert(xs@.subrange(0, i + 1).drop_last() =~= xs@.subrange(0, i as int));
            assert(xs@.subrange(0, i + 1).last() == xs@[i as int]);
        }
        if !contains_pos(&r, xs[i]) {
            r.push(xs[i]);
        }
        i += 1;
    }
    proof {
        assert(xs@.subrange(0, n as int) =~= xs@);
    }
    r
}

/// The working set one level up: the deduplicated parents of the level
/// below's working set.
pub open spec fn spec_next_set(s: Seq<VoxelPos>) -> Seq<VoxelPos> {
    spec_dedup(s.map_values(|p: VoxelPos| spec_parent(p)))
}

/// Dedup law: one level up there are at most as many positions as below,
/// and none is repeated.
pub proof fn lemma_working_set_shrinks(s: Seq<VoxelPos>)
    ensures
        spec_next_set(s).len() <= s.len(),
        forall|i: int, j: int|
            0 <= i < j < spec_next_set(s).len() ==> spec_next_set(s)[i] != spec_next_set(s)[j],
{
    lemma_dedup_len(s.map_values(|p: VoxelPos| spec_parent(p)));
    lemma_dedup_distinct(s.map_values(|p: VoxelPos| spec_parent(p)));
}

/// A nonempty working set stays nonempty one level up: only an empty dirty
/// set ends the mip update early.
pub proof fn lemma_next_set_nonempty(s: Seq<VoxelPos>)
    requires
        s.len() > 0,
    ensures
        spec_next_set(s).len() > 0,
{
    lemma_dedup_nonempty(s.map_values(|p: VoxelPos| spec_parent(p)));
}

/// Compute the working set one level up.
pub fn next_working_set(xs: &Vec<VoxelPos>) -> (r: Vec<VoxelPos>)
    ensures
        r@ == spec_next_set(xs@),
{
    let n = xs.len();
    let mut parents: Vec<VoxelPos> = Vec::new();
    let mut i: usize = 0;
    while i < n
        invariant
            n == xs@.len(),
            i <= n,
            parents@ == xs@.subrange(0, i as int).map_values(|p: VoxelPos| spec_parent(p)),
        decreases n - i,
    {
        parents.push(parent_position(xs[i]));
        proof {
            assert(parents@ =~= xs@.subrange(0, i + 1).map_values(
                |p: VoxelPos| spec_parent(p),
            ));
        }
        i += 1;
    }
    proof {
        assert(xs@.subrange(0, n as int) =~= xs@);
    }
    dedup_positions(&parents)
}

/// How many compute workgroups a working set needs: one per 1024 positions,
/// rounded up.
pub open spec fn spec_workgroups(n: nat) -> nat {
    (n + 1023) / 1024
}

/// One level's share of a mip update: which level to write, the unique
/// cells to recompute there, and the dispatch size.
pub struct MipPass {
    pub level: u32,
    pub positions: Vec<VoxelPos>,
    pub workgroups: usize,
}

/// The chain of working sets a dirty list produces, one per level from
/// level 1 up to `levels`: each is the deduplicated parents of the one
/// below, and an empty dirty list produces no work at all.
pub open spec fn spec_working_sets(dirty: Seq<VoxelPos>, levels: nat) -> Seq<Seq<VoxelPos>>
    decreases levels,
{
    if levels == 0 || dirty.len() == 0 {
        Seq::empty()
    } else {
        let w = spec_next_set(dirty);
        seq![w] + spec_working_sets(w, (levels - 1) as nat)
    }
}

/// Shape of the working-set chain: with a nonempty dirty list there is one
/// set per level, each produced from the one before.
pub proof fn lemma_working_sets_shape(dirty: Seq<VoxelPos>, levels: nat)
    ensures
        dirty.len() == 0 ==> spec_working_sets(dirty, levels).len() == 0,
        dirty.len() > 0 ==> spec_working_sets(dirty, levels).len() == levels,
        levels > 0 && dirty.len() > 0 ==> spec_working_sets(dirty, levels)[0] == spec_next_set(
            dirty,
        ),
        forall|i: int|
            0 < i < spec_working_sets(dirty, levels).len() ==> #[trigger] spec_working_sets(
                dirty,
                levels,
            )[i] == spec_next_set(spec_working_sets(dirty, levels)[i - 1]),
    decreases levels,
{
    if levels > 0 && dirty.len() > 0 {
        let w = spec_next_set(dirty);
        lemma_next_set_nonempty(dirty);
        lemma_working_sets_shape(w, (levels - 1) as nat);
    }
}

/// Mip dedup law: along the chain of working sets, sizes never increase,
/// and the first set is at most as large as the dirty list itself.
pub proof fn lemma_mip_sets_nonincreasing(dirty: Seq<VoxelPos>, levels: nat)
    ensures
        levels > 0 && dirty.len() > 0 ==> spec_working_sets(dirty, levels)[0].len() <= dirty.len(),
        forall|i: int|
            0 < i < spec_working_sets(dirty, levels).len() ==> (#[trigger] spec_working_sets(
                dirty,
                levels,
            )[i]).len() <= spec_working_sets(dirty, levels)[i - 1].len(),
{
    lemma_working_sets_shape(dirty, levels);
    if levels > 0 && dirty.len() > 0 {
        lemma_working_set_shrinks(dirty);
    }
    assert forall|i: int| 0 < i < spec_working_sets(dirty, levels).len() implies (
    #[trigger] spec_working_sets(dirty, levels)[i]).len() <= spec_working_sets(
        dirty,
        levels,
    )[i - 1].len() by {
        lemma_working_set_shrinks(spec_working_sets(dirty, levels)[i - 1]);
    }
}

/// The sparse mip regeneration pass: recomputes coarser levels of the
/// volume from the cells the voxelizer flagged, never the whole volume.
pub struct Mipmapper {
    mip_levels: u32,
}

impl Mipmapper {
    /// How many levels above the base this pass maintains.
    pub closed spec fn spec_mip_level_count(self) -> u32 {
        self.mip_levels
    }

    /// A mip regenerator for a volume of the given size.
    pub fn new(size: (u32, u32, u32)) -> (r: Self)
        ensures
            r.spec_mip_level_count() == spec_mip_levels(
                size.0 as nat,
                size.1 as nat,
                size.2 as nat,
            ),
    {
        Mipmapper {
            mip_levels: mip_level_count(size.0 as usize, size.1 as usize, size.2 as usize),
        }
    }

    /// Plan this frame's sparse mip update from the dirty list: for each
    /// level from 1 upward, the deduplicated parent set of the level below
    /// and its dispatch size. An empty dirty list plans no work.
    #[verifier::rlimit(60)]
    pub fn render(&self, dirty: &Vec<VoxelPos>) -> (r: Vec<MipPass>)
        ensures
            ({
                let sets = spec_working_sets(dirty@, self.spec_mip_level_count() as nat);
                &&& r@.len() == sets.len()
                &&& forall|i: int|
                    0 <= i < r@.len() ==> (#[trigger] r@[i]).level == i + 1 && r@[i].positions@
                        == sets[i] && r@[i].workgroups == spec_workgroups(sets[i].len())
            }),
    {
        proof {
            lemma_working_sets_shape(dirty@, self.mip_levels as nat);
        }
        let ghost sets = spec_working_sets(dirty@, self.mip_levels as nat);
        let mut r: Vec<MipPass> = Vec::new();
        if dirty.len() == 0 {
            return r;
        }
        let mut cur: Vec<VoxelPos> = next_working_set(dirty);
        let mut level: u64 = 1;
        while level <= self.mip_levels as u64
            invariant
                1 <= level,
                level <= self.mip_levels + 1,
                sets == spec_working_sets(dirty@, self.mip_levels as nat),
                sets.len() == self.mip_levels,
                forall|i: int|
                    0 < i < sets.len() ==> #[trigger] sets[i] == spec_next_set(sets[i - 1]),
                r@.len() == level - 1,
                forall|i: int|
                    0 <= i < r@.len() ==> (#[trigger] r@[i]).level == i + 1 && r@[i].positions@
                        == sets[i] && r@[i].workgroups == spec_workgroups(sets[i].len()),
                level <= self.mip_levels ==> cur@ == sets[level - 1],
            decreases self.mip_levels + 1 - level,
        {
            let len = cur.len();
            let workgroups = ceil_div_1024(len);
            let next = next_working_set(&cur);
            r.push(MipPass { level: level as u32, positions: cur, workgroups });
            cur = next;
            level += 1;
        }
        r
    }
}

/// `n / 1024`, rounded up.
fn ceil_div_1024(n: usize) -> (r: usize)
    ensures
        r == spec_workgroups(n as nat),
{
    let q = n / 1024;
    let m = n % 1024;
    proof {
        let ni: int = n as int;
        assert((ni + 1023) / 1024 == if ni % 1024 == 0 {
            ni / 1024
        } else {
            ni / 1024 + 1
        }) by (nonlinear_arith)
            requires
                ni >= 0,
        ;
    }
    if m == 0 {
        q
    } else {
        q + 1
    }
}

/// The mathematical content of one mip level: its cell dimensions and flat
/// RGBA byte array, laid out exactly like the base grid.
#[verifier::ext_equal]
pub struct LevelView {
    pub width: nat,
    pub height: nat,
    pub length: nat,
    pub data: Seq<u8>,
}

impl LevelView {
    /// Well-formed: four bytes per cell, cell count within the address
    /// space.
    pub open spec fn wf(self) -> bool {
        &&& self.data.len() == self.width * self.height * self.length * 4
        &&& self.width * self.height * self.length * 4 <= usize::MAX
    }

    /// Whether `p` names a cell of this level.
    pub open spec fn in_bounds(self, p: VoxelPos) -> bool {
        &&& (p.x as nat) < self.width
        &&& (p.y as nat) < self.height
        &&& (p.z as nat) < self.length
    }

    /// Offset of cell `p`'s first byte.
    pub open spec fn flat_index(self, p: VoxelPos) -> int {
        crate::grid::spec_flat_index(p, self.width as int, self.length as int)
    }

    /// The color stored at cell `p`.
    pub open spec fn cell_at(self, p: VoxelPos) -> Rgba {
        let i = self.flat_index(p);
        Rgba { r: self.data[i], g: self.data[i + 1], b: self.data[i + 2], a: self.data[i + 3] }
    }
}

/// One channel of the child cell `2p + (dx, dy, dz)` in the level below,
/// or `0` where that cell does not exist: absent children count as
/// transparent black in the aggregate, uniformly.
pub open spec fn spec_child_channel(
    cdata: Seq<u8>,
    cw: int,
    chh: int,
    cll: int,
    p: VoxelPos,
    dx: int,
    dy: int,
    dz: int,
    c: int,
) -> int {
    let cx = 2 * p.x + dx;
    let cy = 2 * p.y + dy;
    let cz = 2 * p.z + dz;
    if cx < cw && cy < chh && cz < cll {
        cdata[(cx + cw * cz + cy * cw * cll) * 4 + c] as int
    } else {
        0
    }
}

/// The sum of one channel over the eight children of `p`.
pub open spec fn spec_child_sum(
    cdata: Seq<u8>,
    cw: int,
    chh: int,
    cll: int,
    p: VoxelPos,
    c: int,
) -> int {
    spec_child_channel(cdata, cw, chh, cll, p, 0, 0, 0, c) + spec_child_channel(
        cdata,
        cw,
        chh,
        cll,
        p,
        1,
        0,
        0,
        c,
    ) + spec_child_channel(cdata, cw, chh, cll, p, 0, 1, 0, c) + spec_child_channel(
        cdata,
        cw,
        chh,
        cll,
        p,
        1,
        1,
        0,
        c,
    ) + spec_child_channel(cdata, cw, chh, cll, p, 0, 0, 1, c) + spec_child_channel(
        cdata,
        cw,
        chh,
        cll,
        p,
        1,
        0,
        1,
        c,
    ) + spec_child_channel(cdata, cw, chh, cll, p, 0, 1, 1, c) + spec_child_channel(
        cdata,
        cw,
        chh,
        cll,
        p,
        1,
        1,
        1,
        c,
    )
}

/// The aggregate of one channel: the average of the eight children,
/// rounded down.
pub open spec fn spec_aggregate_channel(
    cdata: Seq<u8>,
    cw: int,
    chh: int,
    cll: int,
    p: VoxelPos,
    c: int,
) -> int {
    spec_child_sum(cdata, cw, chh, cll, p, c) / 8
}

/// Contribution law: each single child contributes at least an eighth of
/// its channel value to the parent's aggregate, so a written voxel is never
/// lost in the average.
pub proof fn lemma_aggregate_lower_bound(
    cdata: Seq<u8>,
    cw: int,
    chh: int,
    cll: int,
    p: VoxelPos,
    dx: int,
    dy: int,
    dz: int,
    c: int,
)
    requires
        0 <= dx < 2,
        0 <= dy < 2,
        0 <= dz < 2,
    ensures
        spec_aggregate_channel(cdata, cw, chh, cll, p, c) >= spec_child_channel(
            cdata,
            cw,
            chh,
            cll,
            p,
            dx,
            dy,
            dz,
            c,
        ) / 8,
{
    let t = spec_child_channel(cdata, cw, chh, cll, p, dx, dy, dz, c);
    let sum = spec_child_sum(cdata, cw, chh, cll, p, c);
    assert(sum >= t);
    vstd::arithmetic::div_mod::lemma_div_is_ordered(t, sum, 8);
}

/// Recomputing cell `p` of a level from the level below: its four bytes
/// become the channel aggregates, everything else stays.
pub open spec fn spec_aggregated_cell(
    parent: LevelView,
    cdata: Seq<u8>,
    cw: int,
    chh: int,
    cll: int,
    p: VoxelPos,
) -> LevelView {
    let i = parent.flat_index(p);
    LevelView {
        data: parent.data.update(
            i,
            spec_aggregate_channel(cdata, cw, chh, cll, p, 0) as u8,
        ).update(i + 1, spec_aggregate_channel(cdata, cw, chh, cll, p, 1) as u8).update(
            i + 2,
            spec_aggregate_channel(cdata, cw, chh, cll, p, 2) as u8,
        ).update(i + 3, spec_aggregate_channel(cdata, cw, chh, cll, p, 3) as u8),
        ..parent
    }
}

/// Folding a working set over a level: each in-range position is
/// recomputed from the level below; positions past the level's edge (an
/// odd-sized level's rim) are skipped.
pub open spec fn spec_apply_set(
    parent: LevelView,
    cdata: Seq<u8>,
    cw: int,
    chh: int,
    cll: int,
    set: Seq<VoxelPos>,
) -> LevelView
    decreases set.len(),
{
    if set.len() == 0 {
        parent
    } else {
        let next = if parent.in_bounds(set[0]) {
            spec_aggregated_cell(parent, cdata, cw, chh, cll, set[0])
        } else {
            parent
        };
        spec_apply_set(next, cdata, cw, chh, cll, set.drop_first())
    }
}

/// Recomputation keeps a level's dimensions, size and well-formedness.
pub proof fn lemma_apply_set_wf(
    parent: LevelView,
    cdata: Seq<u8>,
    cw: int,
    chh: int,
    cll: int,
    set: Seq<VoxelPos>,
)
    requires
        parent.wf(),
    ensures
        spec_apply_set(parent, cdata, cw, chh, cll, set).width == parent.width,
        spec_apply_set(parent, cdata, cw, chh, cll, set).height == parent.height,
        spec_apply_set(parent, cdata, cw, chh, cll, set).length == parent.length,
        spec_apply_set(parent, cdata, cw, chh, cll, set).data.len() == parent.data.len(),
        spec_apply_set(parent, cdata, cw, chh, cll, set).wf(),
    decreases set.len(),
{
    if set.len() > 0 {
        let next = if parent.in_bounds(set[0]) {
            crate::grid::lemma_flat_index_bounds(
                set[0],
                parent.width as int,
                parent.height as int,
                parent.length as int,
            );
            spec_aggregated_cell(parent, cdata, cw, chh, cll, set[0])
        } else {
            parent
        };
        lemma_apply_set_wf(next, cdata, cw, chh, cll, set.drop_first());
    }
}

/// One mip level of the volume on the host.
pub struct LevelGrid {
    width: usize,
    height: usize,
    length: usize,
    data: Vec<u8>,
}

impl View for LevelGrid {
    type V = LevelView;

    closed spec fn view(&self) -> LevelView {
        LevelView {
            width: self.width as nat,
            height: self.height as nat,
            length: self.length as nat,
            data: self.data@,
        }
    }
}

impl LevelGrid {
    /// The color stored at cell `pos`.
    pub fn get_cell(&self, pos: VoxelPos) -> (c: Rgba)
        requires
            self@.wf(),
            self@.in_bounds(pos),
        ensures
            c == self@.cell_at(pos),
    {
        proof {
            crate::grid::lemma_flat_index_bounds(
                pos,
                self.width as int,
                self.height as int,
                self.length as int,
            );
        }
        let i = (pos.x + self.width * pos.z + pos.y * self.width * self.length) * 4;
        Rgba { r: self.data[i], g: self.data[i + 1], b: self.data[i + 2], a: self.data[i + 3] }
    }

    /// Width of this level in cells.
    pub fn width(&self) -> (r: usize)
        ensures
            r == self@.width,
    {
        self.width
    }

    /// Height of this level in cells.
    pub fn height(&self) -> (r: usize)
        ensures
            r == self@.height,
    {
        self.height
    }

    /// Length of this level in cells.
    pub fn length(&self) -> (r: usize)
        ensures
            r == self@.length,
    {
        self.length
    }

    /// The flat RGBA byte array of this level, for upload by the device
    /// owner.
    pub fn data(&self) -> (r: &Vec<u8>)
        ensures
            r@ == self@.data,
    {
        &self.data
    }
}

/// One channel of one child of `p`, or `0` where the child does not exist.
fn child_channel(
    cdata: &Vec<u8>,
    cw: usize,
    chh: usize,
    cll: usize,
    p: VoxelPos,
    dx: usize,
    dy: usize,
    dz: usize,
    c: usize,
) -> (r: u8)
    requires
        cdata@.len() == cw * chh * cll * 4,
        cw * chh * cll * 4 <= usize::MAX,
        dx < 2,
        dy < 2,
        dz < 2,
        c < 4,
    ensures
        r as int == spec_child_channel(cdata@, cw as int, chh as int, cll as int, p, dx as int, dy as int, dz as int, c as int),
{
    let cx: u128 = (p.x as u128) * 2 + (dx as u128);
    let cy: u128 = (p.y as u128) * 2 + (dy as u128);
    let cz: u128 = (p.z as u128) * 2 + (dz as u128);
    if cx < cw as u128 && cy < chh as u128 && cz < cll as u128 {
        let q = VoxelPos { x: cx as usize, y: cy as usize, z: cz as usize };
        proof {
            crate::grid::lemma_flat_index_bounds(q, cw as int, chh as int, cll as int);
        }
        let i = (q.x + cw * q.z + q.y * cw * cll) * 4;
        cdata[i + c]
    } else {
        0
    }
}

/// Recompute cell `p` of `parent` as the channel-wise average of its eight
/// children in the level below, absent children counting as transparent
/// black.
fn recompute_cell(
    parent: &mut LevelGrid,
    cdata: &Vec<u8>,
    cw: usize,
    chh: usize,
    cll: usize,
    p: VoxelPos,
)
    requires
        old(parent)@.wf(),
        old(parent)@.in_bounds(p),
        cdata@.len() == cw * chh * cll * 4,
        cw * chh * cll * 4 <= usize::MAX,
    ensures
        final(parent)@ == spec_aggregated_cell(
            old(parent)@,
            cdata@,
            cw as int,
            chh as int,
            cll as int,
            p,
        ),
        final(parent)@.wf(),
{
    proof {
        crate::grid::lemma_flat_index_bounds(
            p,
            parent.width as int,
            parent.height as int,
            parent.length as int,
        );
    }
    let i = (p.x + parent.width * p.z + p.y * parent.width * parent.length) * 4;
    let mut c: usize = 0;
    while c < 4
        invariant
            old(parent)@.wf(),
            old(parent)@.in_bounds(p),
            cdata@.len() == cw * chh * cll * 4,
            cw * chh * cll * 4 <= usize::MAX,
            c <= 4,
            i == old(parent)@.flat_index(p),
            i + 4 <= parent.data@.len(),
            parent.width == old(parent).width,
            parent.height == old(parent).height,
            parent.length == old(parent).length,
            parent.data@.len() == old(parent).data@.len(),
            forall|m: int|
                0 <= m < parent.data@.len() && !(i <= m < i + c) ==> parent.data@[m] == old(
                    parent,
                ).data@[m],
            forall|m: int|
                i <= m < i + c ==> parent.data@[m] == spec_aggregate_channel(
                    cdata@,
                    cw as int,
                    chh as int,
                    cll as int,
                    p,
                    m - i,
                ) as u8,
        decreases 4 - c,
    {
        let sum: u32 = (child_channel(cdata, cw, chh, cll, p, 0, 0, 0, c) as u32) + (child_channel(
            cdata,
            cw,
            chh,
            cll,
            p,
            1,
            0,
            0,
            c,
        ) as u32) + (child_channel(cdata, cw, chh, cll, p, 0, 1, 0, c) as u32) + (child_channel(
            cdata,
            cw,
            chh,
            cll,
            p,
            1,
            1,
            0,
            c,
        ) as u32) + (child_channel(cdata, cw, chh, cll, p, 0, 0, 1, c) as u32) + (child_channel(
            cdata,
            cw,
            chh,
            cll,
            p,
            1,
            0,
            1,
            c,
        ) as u32) + (child_channel(cdata, cw, chh, cll, p, 0, 1, 1, c) as u32) + (child_channel(
            cdata,
            cw,
            chh,
            cll,
            p,
            1,
            1,
            1,
            c,
        ) as u32);
        let avg = (sum / 8) as u8;
        self_set_byte(parent, i + c, avg);
        c += 1;
    }
    proof {
        assert(final_eq_aggregated(
            old(parent)@,
            parent@,
            cdata@,
            cw as int,
            chh as int,
            cll as int,
            p,
        )) by {
            assert(parent@.data =~= spec_aggregated_cell(
                old(parent)@,
                cdata@,
                cw as int,
                chh as int,
                cll as int,
                p,
            ).data);
        }
    }
}

/// Whether `post` is `pre` with cell `p` recomputed from the given child
/// level.
spec fn final_eq_aggregated(
    pre: LevelView,
    post: LevelView,
    cdata: Seq<u8>,
    cw: int,
    chh: int,
    cll: int,
    p: VoxelPos,
) -> bool {
    post == spec_aggregated_cell(pre, cdata, cw, chh, cll, p)
}

/// Write one byte of a level's data.
fn self_set_byte(parent: &mut LevelGrid, i: usize, v: u8)
    requires
        i < old(parent).data@.len(),
    ensures
        final(parent).width == old(parent).width,
        final(parent).height == old(parent).height,
        final(parent).length == old(parent).length,
        final(parent).data@ == old(parent).data@.update(i as int, v),
{
    parent.data[i] = v;
}

/// Recompute every in-range cell of a working set from the level below.
fn update_level(
    parent: &mut LevelGrid,
    cdata: &Vec<u8>,
    cw: usize,
    chh: usize,
    cll: usize,
    set: &Vec<VoxelPos>,
)
    requires
        old(parent)@.wf(),
        cdata@.len() == cw * chh * cll * 4,
        cw * chh * cll * 4 <= usize::MAX,
    ensures
        final(parent)@ == spec_apply_set(
            old(parent)@,
            cdata@,
            cw as int,
            chh as int,
            cll as int,
            set@,
        ),
        final(parent)@.wf(),
{
    let n = set.len();
    let mut j: usize = 0;
    proof {
        assert(set@.skip(0) =~= set@);
        lemma_apply_set_wf(old(parent)@, cdata@, cw as int, chh as int, cll as int, set@);
    }
    while j < n
        invariant
            n == set@.len(),
            j <= n,
            parent@.wf(),
            cdata@.len() == cw * chh * cll * 4,
            cw * chh * cll * 4 <= usize::MAX,
            spec_apply_set(old(parent)@, cdata@, cw as int, chh as int, cll as int, set@)
                == spec_apply_set(
                parent@,
                cdata@,
                cw as int,
                chh as int,
                cll as int,
                set@.skip(j as int),
            ),
        decreases n - j,
    {
        let ghost tail = set@.skip(j as int);
        proof {
            assert(tail[0] == set@[j as int]);
            assert(tail.drop_first() =~= set@.skip(j + 1));
        }
        let p = set[j];
        if p.x < parent.width && p.y < parent.height && p.z < parent.length {
            recompute_cell(parent, cdata, cw, chh, cll, p);
        }
        j += 1;
    }
    proof {
        assert(set@.skip(n as int) =~= Seq::<VoxelPos>::empty());
    }
}

/// The cell extent of a coarser level: the base extent halved once per
/// level.
pub open spec fn spec_level_dim(n: nat, level: nat) -> nat
    decreases level,
{
    if level == 0 {
        n
    } else {
        spec_level_dim(n, (level - 1) as nat) / 2
    }
}

/// The volume's coarser mip levels on the host, level 1 upward; the base
/// level lives in the voxel grid itself. Created once at pipeline
/// construction, updated sparsely from the dirty-cell list each frame.
pub struct MipChain {
    levels: Vec<LevelGrid>,
}

impl View for MipChain {
    type V = Seq<LevelView>;

    closed spec fn view(&self) -> Seq<LevelView> {
        Seq::new(self.levels@.len() as nat, |i: int| self.levels@[i]@)
    }
}

impl MipChain {
    /// Well-formed: every level's byte array matches its dimensions.
    pub open spec fn wf(self) -> bool {
        forall|i: int| 0 <= i < self@.len() ==> (#[trigger] self@[i]).wf()
    }

    /// An all-transparent chain of `levels` levels above a base of extent
    /// `base`, each level half the one below in every axis.
    pub fn new(base: (usize, usize, usize), levels: u32) -> (r: Self)
        requires
            base.0 * base.1 * base.2 * 4 <= usize::MAX,
        ensures
            r.wf(),
            r@.len() == levels,
            forall|i: int|
                0 <= i < r@.len() ==> (#[trigger] r@[i]).width == spec_level_dim(
                    base.0 as nat,
                    (i + 1) as nat,
                ) && r@[i].height == spec_level_dim(base.1 as nat, (i + 1) as nat) && r@[i].length
                    == spec_level_dim(base.2 as nat, (i + 1) as nat),
            forall|i: int, m: int|
                0 <= i < r@.len() && 0 <= m < r@[i].data.len() ==> #[trigger] r@[i].data[m]
                    == 0u8,
    {
        let mut cw = base.0;
        let mut chh = base.1;
        let mut cll = base.2;
        let mut out: Vec<LevelGrid> = Vec::new();
        let mut l: u32 = 0;
        while l < levels
            invariant
                l <= levels,
                out@.len() == l,
                cw == spec_level_dim(base.0 as nat, l as nat),
                chh == spec_level_dim(base.1 as nat, l as nat),
                cll == spec_level_dim(base.2 as nat, l as nat),
                cw * chh * cll * 4 <= usize::MAX,
                forall|i: int|
                    0 <= i < out@.len() ==> (#[trigger] out@[i]@).wf() && out@[i]@.width
                        == spec_level_dim(base.0 as nat, (i + 1) as nat) && out@[i]@.height
                        == spec_level_dim(base.1 as nat, (i + 1) as nat) && out@[i]@.length
                        == spec_level_dim(base.2 as nat, (i + 1) as nat),
                forall|i: int, m: int|
                    0 <= i < out@.len() && 0 <= m < out@[i]@.data.len()
                        ==> #[trigger] out@[i]@.data[m] == 0u8,
            decreases levels - l,
        {
            let w = cw / 2;
            let h = chh / 2;
            let ln = cll / 2;
            let total: usize = if w == 0 || h == 0 || ln == 0 {
                proof {
                    assert(w * h * ln * 4 == 0) by (nonlinear_arith)
                        requires
                            w == 0 || h == 0 || ln == 0,
                    ;
                }
                0
            } else {
                proof {
                    assert(w * h <= w * h * ln * 4 && w * h * ln <= w * h * ln * 4 && w * h * ln
                        * 4 <= cw * chh * cll * 4) by (nonlinear_arith)
                        requires
                            w == cw / 2,
                            h == chh / 2,
                            ln == cll / 2,
                            w >= 1,
                            h >= 1,
                            ln >= 1,
                            cw >= 0,
                            chh >= 0,
                            cll >= 0,
                    ;
                }
                w * h * ln * 4
            };
            let data = vec![0u8; total];
            out.push(LevelGrid { width: w, height: h, length: ln, data });
            cw = w;
            chh = h;
            cll = ln;
            l += 1;
        }
        let r = MipChain { levels: out };
        proof {
            assert(r@.len() == levels);
            assert(forall|i: int| 0 <= i < r@.len() ==> r@[i] == r.levels@[i]@);
        }
        r
    }

    /// How many levels the chain holds above the base.
    pub fn level_count(&self) -> (r: usize)
        ensures
            r == self@.len(),
    {
        self.levels.len()
    }

    /// The color stored at cell `pos` of level `level` (level 1 is the
    /// first above the base). Nothing when the level or the cell does not
    /// exist.
    pub fn get_cell(&self, level: usize, pos: VoxelPos) -> (r: Option<Rgba>)
        requires
            self.wf(),
        ensures
            if 1 <= level <= self@.len() && self@[level - 1].in_bounds(pos) {
                r == Some(self@[level - 1].cell_at(pos))
            } else {
                r is None
            },
    {
        if level < 1 || level > self.levels.len() {
            return None;
        }
        let lg = &self.levels[level - 1];
        proof {
            assert(lg@ == self@[level - 1]);
        }
        if pos.x < lg.width && pos.y < lg.height && pos.z < lg.length {
            Some(lg.get_cell(pos))
        } else {
            None
        }
    }

    /// Run one sparse mip regeneration: level 1's working set is the
    /// deduplicated parents of the dirty list and is recomputed from the
    /// base grid; each further level's working set is the deduplicated
    /// parents of the one below and is recomputed from that freshly
    /// updated level. An empty dirty list updates nothing.
    #[verifier::rlimit(100)]
    pub fn update(&mut self, base: &VoxelGrid, dirty: &Vec<VoxelPos>)
        requires
            old(self).wf(),
            base@.wf(),
        ensures
            final(self).wf(),
            final(self)@.len() == old(self)@.len(),
            forall|i: int|
                0 <= i < final(self)@.len() ==> (#[trigger] final(self)@[i]).width
                    == old(self)@[i].width && final(self)@[i].height == old(self)@[i].height
                    && final(self)@[i].length == old(self)@[i].length,
            dirty@.len() == 0 ==> final(self)@ == old(self)@,
            dirty@.len() > 0 ==> ({
                let sets = spec_working_sets(dirty@, old(self)@.len() as nat);
                forall|i: int|
                    0 <= i < final(self)@.len() ==> #[trigger] final(self)@[i] == spec_apply_set(
                        old(self)@[i],
                        if i == 0 {
                            base@.data
                        } else {
                            final(self)@[i - 1].data
                        },
                        if i == 0 {
                            base@.width as int
                        } else {
                            final(self)@[i - 1].width as int
                        },
                        if i == 0 {
                            base@.height as int
                        } else {
                            final(self)@[i - 1].height as int
                        },
                        if i == 0 {
                            base@.length as int
                        } else {
                            final(self)@[i - 1].length as int
                        },
                        sets[i],
                    )
            }),
    {
        let n = self.levels.len();
        if dirty.len() == 0 {
            return ;
        }
        proof {
            lemma_working_sets_shape(dirty@, n as nat);
        }
        let ghost sets = spec_working_sets(dirty@, n as nat);
        let ghost orig = self@;
        proof {
            assert(forall|j: int| 0 <= j < n ==> orig[j] == #[trigger] self.levels@[j]@);
        }
        let mut set: Vec<VoxelPos> = next_working_set(dirty);
        let mut idx: usize = 0;
        while idx < n
            invariant
                n == self.levels@.len(),
                n == old(self).levels@.len(),
                idx <= n,
                base@.wf(),
                old(self).wf(),
                orig == old(self)@,
                forall|j: int| 0 <= j < n ==> orig[j] == #[trigger] old(self).levels@[j]@,
                dirty@.len() > 0,
                sets == spec_working_sets(dirty@, n as nat),
                sets.len() == n,
                n > 0 ==> sets[0] == spec_next_set(dirty@),
                forall|i: int| 0 < i < n ==> #[trigger] sets[i] == spec_next_set(sets[i - 1]),
                idx < n ==> set@ == sets[idx as int],
                forall|j: int|
                    idx <= j < n ==> #[trigger] self.levels@[j] == old(self).levels@[j],
                forall|j: int| 0 <= j < n ==> (#[trigger] self.levels@[j]@).wf(),
                forall|j: int|
                    0 <= j < idx ==> #[trigger] self.levels@[j]@ == spec_apply_set(
                        orig[j],
                        if j == 0 {
                            base@.data
                        } else {
                            self.levels@[j - 1]@.data
                        },
                        if j == 0 {
                            base@.width as int
                        } else {
                            self.levels@[j - 1]@.width as int
                        },
                        if j == 0 {
                            base@.height as int
                        } else {
                            self.levels@[j - 1]@.height as int
                        },
                        if j == 0 {
                            base@.length as int
                        } else {
                            self.levels@[j - 1]@.length as int
                        },
                        sets[j],
                    ),
                forall|j: int|
                    0 <= j < n ==> (#[trigger] self.levels@[j]@).width == orig[j].width
                        && self.levels@[j]@.height == orig[j].height && self.levels@[j]@.length
                        == orig[j].length,
            decreases n - idx,
        {
            let ghost pre_levels = self.levels@;
            let mut cur = LevelGrid { width: 0, height: 0, length: 0, data: Vec::new() };
            core::mem::swap(&mut self.levels[idx], &mut cur);
            proof {
                assert(cur@ == pre_levels[idx as int]@);
                assert(cur@.wf());
                assert(forall|j: int|
                    0 <= j < n && j != idx ==> #[trigger] self.levels@[j] == pre_levels[j]);
            }
            let next = next_working_set(&set);
            if idx == 0 {
                update_level(&mut cur, base.data(), base.width(), base.height(), base.length(), &set);
            } else {
                proof {
                    assert(self.levels@[idx - 1] == pre_levels[idx - 1]);
                    assert(pre_levels[idx - 1]@.wf());
                }
                let child = &self.levels[idx - 1];
                update_level(&mut cur, &child.data, child.width, child.height, child.length, &set);
            }
            let ghost updated = cur@;
            core::mem::swap(&mut self.levels[idx], &mut cur);
            proof {
                assert(self.levels@[idx as int]@ == updated);
                assert(forall|j: int|
                    0 <= j < n && j != idx ==> #[trigger] self.levels@[j] == pre_levels[j]);
                assert(updated == spec_apply_set(
                    orig[idx as int],
                    if idx == 0 {
                        base@.data
                    } else {
                        self.levels@[idx - 1]@.data
                    },
                    if idx == 0 {
                        base@.width as int
                    } else {
                        self.levels@[idx - 1]@.width as int
                    },
                    if idx == 0 {
                        base@.height as int
                    } else {
                        self.levels@[idx - 1]@.height as int
                    },
                    if idx == 0 {
                        base@.length as int
                    } else {
                        self.levels@[idx - 1]@.length as int
                    },
                    sets[idx as int],
                ));
                lemma_apply_set_wf(
                    orig[idx as int],
                    if idx == 0 {
                        base@.data
                    } else {
                        self.levels@[idx - 1]@.data
                    },
                    if idx == 0 {
                        base@.width as int
                    } else {
                        self.levels@[idx - 1]@.width as int
                    },
                    if idx == 0 {
                        base@.height as int
                    } else {
                        self.levels@[idx - 1]@.height as int
                    },
                    if idx == 0 {
                        base@.length as int
                    } else {
                        self.levels@[idx - 1]@.length as int
                    },
                    sets[idx as int],
                );
                if idx + 1 < n {
                    assert(next@ == sets[idx + 1]);
                }
            }
            set = next;
            idx += 1;
        }
        proof {
            assert(self@.len() == self.levels@.len());
            assert(forall|j: int| 0 <= j < n ==> #[trigger] self@[j] == self.levels@[j]@);
            assert(forall|j: int| 0 <= j < n ==> #[trigger] orig[j] == old(self).levels@[j]@);
        }
    }
}

} // verus!
