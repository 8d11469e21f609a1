use crate::error::Error;
use crate::point_cloud::PointCloud;
use crate::point_data::PointData;
use crate::sampling::{
    lemma_positions_count, positions_mask, positions_seq_mask, sample_mask, seeded_sample,
};
use crate::selection::{
    any_set, count_set, lemma_count_split, lemma_count_zero, lemma_masked_len, lemma_masked_split,
    masked, negate_mask, negated, select_copied,
};
use vstd::multiset::Multiset;
use vstd::pervasive::cloned;
use vstd::prelude::*;

verus! {

/// One of the eight children of a cube, named by the side of the parent's
/// center it lies on along each axis.
#[derive(Debug, Clone, Copy, PartialEq, Eq, Structural, Hash)]
pub struct Octant {
    pub x_positive: bool,
    pub y_positive: bool,
    pub z_positive: bool,
}

/// Number of children of a cube.
pub const OCTANT_COUNT: usize = 8;

impl Octant {
    /// The octant's position in the fixed order of the eight labels.
    pub open spec fn spec_index(self) -> nat {
        (if self.x_positive {
            4nat
        } else {
            0nat
        }) + (if self.y_positive {
            2nat
        } else {
            0nat
        }) + (if self.z_positive {
            1nat
        } else {
            0nat
        })
    }

    pub open spec fn spec_at(i: nat) -> Octant {
        Octant { x_positive: i >= 4, y_positive: i % 4 >= 2, z_positive: i % 2 == 1 }
    }

    /// The octant at a position of the fixed order.
    pub fn at(i: usize) -> (r: Octant)
        requires
            i < OCTANT_COUNT,
        ensures
            r == Octant::spec_at(i as nat),
            r.spec_index() == i,
    {
        Octant { x_positive: i >= 4, y_positive: i % 4 >= 2, z_positive: i % 2 == 1 }
    }
}

/// Bits of resolution of the grid coordinates.
pub const GRID_BITS: u64 = 64;

/// A point's position in the root cube as integer grid coordinates: the cube
/// is cut into `2^64` slabs along each axis, and a coordinate names the slab,
/// counted from the lower face. Faces belong to the slab above them, so a
/// point lies in exactly one cell at every level.
#[derive(Debug, Clone, Copy, PartialEq, Eq, Structural, Hash)]
pub struct GridPoint {
    pub x: u64,
    pub y: u64,
    pub z: u64,
}

/// Whether a grid coordinate lies in the upper half of its cell at `level`.
pub open spec fn upper_half(v: u64, level: nat) -> bool {
    level < GRID_BITS && (v >> ((GRID_BITS - 1) - level) as u64) & 1u64 == 1u64
}

/// The child, among the children of its cell at `level`, that holds the point.
pub open spec fn octant_at(g: GridPoint, level: nat) -> Octant {
    Octant {
        x_positive: upper_half(g.x, level),
        y_positive: upper_half(g.y, level),
        z_positive: upper_half(g.z, level),
    }
}

fn upper_half_exec(v: u64, level: usize) -> (r: bool)
    ensures
        r == upper_half(v, level as nat),
{
    if level < 64 {
        let shift: u64 = 63 - level as u64;
        (v >> shift) & 1u64 == 1u64
    } else {
        false
    }
}

/// The child of the point's cell at `level` that holds it.
pub fn locate(g: &GridPoint, level: usize) -> (r: Octant)
    ensures
        r == octant_at(*g, level as nat),
{
    Octant {
        x_positive: upper_half_exec(g.x, level),
        y_positive: upper_half_exec(g.y, level),
        z_positive: upper_half_exec(g.z, level),
    }
}

/// The address of a cell: the octants taken from the root down (empty for
/// the root).
#[derive(Debug, Clone)]
pub struct CellIdentifier {
    pub path: Vec<Octant>,
}

impl CellIdentifier {
    /// The root cell.
    pub fn root() -> (r: Self)
        ensures
            r.path@ == Seq::<Octant>::empty(),
    {
        CellIdentifier { path: Vec::new() }
    }

    /// Depth of the cell below the root.
    pub fn level(&self) -> (r: usize)
        ensures
            r == self.path@.len(),
    {
        self.path.len()
    }

    /// The child of this cell in octant `octant`.
    pub fn append(&self, octant: Octant) -> (r: Self)
        ensures
            r.path@ == self.path@.push(octant),
    {
        let mut path: Vec<Octant> = Vec::new();
        let mut i: usize = 0;
        while i < self.path.len()
            invariant
                i <= self.path@.len(),
                path@ == self.path@.subrange(0, i as int),
            decreases self.path@.len() - i,
        {
            path.push(self.path[i]);
            proof {
                assert(path@ =~= self.path@.subrange(0, i + 1));
            }
            i = i + 1;
        }
        path.push(octant);
        proof {
            assert(path@ =~= self.path@.push(octant));
        }
        CellIdentifier { path }
    }

    /// The level and the coordinates of the cell; the coordinates fit in 64
    /// bits down to level 64.
    pub fn octant_index(&self) -> (r: Result<OctantIndex, Error>)
        ensures
            self.path@.len() > 64 <==> r == Err::<OctantIndex, Error>(Error::InvalidNumber),
            self.path@.len() <= 64 <==> r is Ok,
            r matches Ok(i) ==> i == index_of_path(self.path@),
    {
        let n = self.path.len();
        if n > 64 {
            return Err(Error::InvalidNumber);
        }
        let ghost path = self.path@;
        let mut x: u64 = 0;
        let mut y: u64 = 0;
        let mut z: u64 = 0;
        let mut i: usize = 0;
        while i < n
            invariant
                n == path.len() <= 64,
                path == self.path@,
                i <= n,
                x == axis_coordinate(path.subrange(0, i as int), 0),
                y == axis_coordinate(path.subrange(0, i as int), 1),
                z == axis_coordinate(path.subrange(0, i as int), 2),
            decreases n - i,
        {
            let o = self.path[i];
            x = step_coordinate(x, o.x_positive, Ghost(path), i, Ghost(0nat));
            y = step_coordinate(y, o.y_positive, Ghost(path), i, Ghost(1nat));
            z = step_coordinate(z, o.z_positive, Ghost(path), i, Ghost(2nat));
            i = i + 1;
        }
        proof {
            assert(path.subrange(0, n as int) =~= path);
        }
        Ok(OctantIndex { level: n as u32, x, y, z })
    }

    /// Whether two identifiers address the same cell.
    pub fn same_cell(&self, other: &CellIdentifier) -> (r: bool)
        ensures
            r == (self.path@ == other.path@),
    {
        if self.path.len() != other.path.len() {
            return false;
        }
        let mut i: usize = 0;
        while i < self.path.len()
            invariant
                i <= self.path@.len(),
                self.path@.len() == other.path@.len(),
                forall|j: int| 0 <= j < i ==> self.path@[j] == other.path@[j],
            decreases self.path@.len() - i,
        {
            if self.path[i] != other.path[i] {
                return false;
            }
            i = i + 1;
        }
        proof {
            assert(self.path@ =~= other.path@);
        }
        true
    }
}

/// A cell's level and its integer coordinates among the `2^level` cells
/// along each axis at that level.
#[derive(Debug, Clone, Copy, PartialEq, Eq, Structural, Hash)]
pub struct OctantIndex {
    pub level: u32,
    pub x: u64,
    pub y: u64,
    pub z: u64,
}

/// Whether the octant lies on the upper side along axis 0 (x), 1 (y) or 2 (z).
pub open spec fn upper_along(o: Octant, axis: nat) -> bool {
    if axis == 0 {
        o.x_positive
    } else if axis == 1 {
        o.y_positive
    } else {
        o.z_positive
    }
}

/// The cell's coordinate along an axis: each step down doubles it and adds
/// one on the upper side.
pub open spec fn axis_coordinate(path: Seq<Octant>, axis: nat) -> nat
    decreases path.len(),
{
    if path.len() == 0 {
        0
    } else {
        2 * axis_coordinate(path.drop_last(), axis) + if upper_along(path.last(), axis) {
            1nat
        } else {
            0nat
        }
    }
}

/// Number of cells along an axis at a level.
pub open spec fn cells_per_axis(level: nat) -> nat
    decreases level,
{
    if level == 0 {
        1
    } else {
        2 * cells_per_axis((level - 1) as nat)
    }
}

proof fn lemma_cells_per_axis_64()
    ensures
        cells_per_axis(64) == 0x1_0000_0000_0000_0000,
{
    reveal_with_fuel(cells_per_axis, 65);
}

proof fn lemma_cells_per_axis_grows(a: nat, b: nat)
    requires
        a <= b,
    ensures
        cells_per_axis(a) <= cells_per_axis(b),
    decreases b,
{
    if a < b {
        lemma_cells_per_axis_grows(a, (b - 1) as nat);
    }
}

proof fn lemma_axis_coordinate_bound(path: Seq<Octant>, axis: nat)
    ensures
        axis_coordinate(path, axis) < cells_per_axis(path.len()),
    decreases path.len(),
{
    if path.len() > 0 {
        lemma_axis_coordinate_bound(path.drop_last(), axis);
    }
}

/// The octant index a path addresses.
pub open spec fn index_of_path(path: Seq<Octant>) -> OctantIndex {
    OctantIndex {
        level: path.len() as u32,
        x: axis_coordinate(path, 0) as u64,
        y: axis_coordinate(path, 1) as u64,
        z: axis_coordinate(path, 2) as u64,
    }
}

fn step_coordinate(c: u64, upper: bool, path: Ghost<Seq<Octant>>, i: usize, axis: Ghost<nat>) -> (r: u64)
    requires
        i < path@.len() <= 64,
        c == axis_coordinate(path@.subrange(0, i as int), axis@),
        upper == upper_along(path@[i as int], axis@),
    ensures
        r == axis_coordinate(path@.subrange(0, i + 1), axis@),
{
    proof {
        lemma_axis_coordinate_bound(path@.subrange(0, i as int), axis@);
        lemma_cells_per_axis_grows((i + 1) as nat, 64);
        lemma_cells_per_axis_64();
        assert(path@.subrange(0, i + 1).drop_last() =~= path@.subrange(0, i as int));
    }
    2 * c + if upper {
        1u64
    } else {
        0u64
    }
}

/// A cell of the octree and the rows of the points it holds directly.
#[derive(Debug, Clone)]
pub struct Cell {
    pub id: CellIdentifier,
    pub rows: Vec<usize>,
}

/// The rows of all cells, cell after cell.
pub open spec fn cell_rows(cells: Seq<Cell>) -> Seq<usize>
    decreases cells.len(),
{
    if cells.len() == 0 {
        Seq::empty()
    } else {
        cell_rows(cells.drop_last()) + cells.last().rows@
    }
}

/// The mask that marks the members whose point lies in `octant` at `level`.
pub open spec fn octant_mask(
    grid: Seq<GridPoint>,
    members: Seq<usize>,
    level: nat,
    octant: Octant,
) -> Seq<bool> {
    Seq::new(members.len(), |i: int| octant_at(grid[members[i] as int], level) == octant)
}

/// Every cell holds between one and `max_size` rows, each below `n`.
pub open spec fn cells_bounded(cells: Seq<Cell>, max_size: nat, n: nat) -> bool {
    forall|c: int|
        0 <= c < cells.len() ==> (#[trigger] cells[c]).rows@.len() > 0 && cells[c].rows@.len()
            <= max_size && forall|t: int| 0 <= t < cells[c].rows@.len() ==> #[trigger] cells[c].rows@[t] < n
}

proof fn lemma_cell_rows_push(cells: Seq<Cell>, cell: Cell)
    ensures
        cell_rows(cells.push(cell)) == cell_rows(cells) + cell.rows@,
{
    assert(cells.push(cell).drop_last() =~= cells);
}

fn octant_members(grid: &Vec<GridPoint>, members: &Vec<usize>, level: usize, octant: Octant) -> (r:
    Vec<bool>)
    requires
        forall|t: int| 0 <= t < members@.len() ==> #[trigger] members@[t] < grid@.len(),
    ensures
        r@ == octant_mask(grid@, members@, level as nat, octant),
{
    let mut r: Vec<bool> = Vec::new();
    let mut i: usize = 0;
    while i < members.len()
        invariant
            i <= members@.len(),
            forall|t: int| 0 <= t < members@.len() ==> #[trigger] members@[t] < grid@.len(),
            r@ == octant_mask(grid@, members@, level as nat, octant).subrange(0, i as int),
        decreases members@.len() - i,
    {
        let found = locate(&grid[members[i]], level);
        r.push(found == octant);
        proof {
            assert(r@ =~= octant_mask(grid@, members@, level as nat, octant).subrange(0, i + 1));
        }
        i = i + 1;
    }
    proof {
        assert(r@ =~= octant_mask(grid@, members@, level as nat, octant));
    }
    r
}

/// Address and rows of a cell.
pub open spec fn cell_view(c: Cell) -> (Seq<Octant>, Seq<usize>) {
    (c.id.path@, c.rows@)
}

pub open spec fn cells_view(cells: Seq<Cell>) -> Seq<(Seq<Octant>, Seq<usize>)> {
    cells.map_values(|c: Cell| cell_view(c))
}

/// The cells of the subtree rooted at cell `id` that holds the points listed
/// in `members`, parent before children, children in octant order.
pub open spec fn subtree(
    grid: Seq<GridPoint>,
    members: Seq<usize>,
    id: Seq<Octant>,
    max_size: nat,
    seed: u64,
) -> Seq<(Seq<Octant>, Seq<usize>)>
    decreases members.len(), 0nat,
{
    let n = members.len();
    let keep = sample_mask(seed, n, max_size);
    if n <= max_size || !any_set(keep, n) {
        seq![(id, members)]
    } else {
        let rest = masked(members, negated(keep), n);
        proof {
            lemma_count_zero(keep, n);
            lemma_count_split(keep, n);
            lemma_masked_len(members, negated(keep), n);
        }
        seq![(id, masked(members, keep, n))] + children(grid, rest, id, 0, max_size, seed)
    }
}

/// The cells below cell `id` for the points of `rest`, from octant `o` on.
pub open spec fn children(
    grid: Seq<GridPoint>,
    rest: Seq<usize>,
    id: Seq<Octant>,
    o: nat,
    max_size: nat,
    seed: u64,
) -> Seq<(Seq<Octant>, Seq<usize>)>
    decreases rest.len(), 9 - o,
{
    if o >= 8 {
        Seq::empty()
    } else {
        let m = octant_mask(grid, rest, id.len(), Octant::spec_at(o));
        let child = masked(rest, m, rest.len());
        let remaining = masked(rest, negated(m), rest.len());
        proof {
            lemma_count_split(m, rest.len());
            lemma_masked_len(rest, m, rest.len());
            lemma_masked_len(rest, negated(m), rest.len());
        }
        (if child.len() > 0 {
            subtree(grid, child, id.push(Octant::spec_at(o)), max_size, seed)
        } else {
            Seq::empty()
        }) + children(grid, remaining, id, o + 1, max_size, seed)
    }
}

/// Path `p` lies strictly below path `q`.
pub open spec fn extends(p: Seq<Octant>, q: Seq<Octant>) -> bool {
    q.len() < p.len() && p.subrange(0, q.len() as int) == q
}

/// The cells from position `from` on all lie at or below `path`.
pub open spec fn under(vs: Seq<(Seq<Octant>, Seq<usize>)>, from: int, path: Seq<Octant>) -> bool {
    forall|i: int|
        from <= i < vs.len() ==> path.len() <= (#[trigger] vs[i]).0.len() && vs[i].0.subrange(
            0,
            path.len() as int,
        ) == path
}

/// Among the cells from position `from` on, every cell that has a cell below
/// it holds exactly `max_size` rows.
pub open spec fn inner_cells_full(vs: Seq<(Seq<Octant>, Seq<usize>)>, from: int, max_size: nat) -> bool {
    forall|i: int, j: int|
        from <= i < vs.len() && from <= j < vs.len() && extends(
            (#[trigger] vs[j]).0,
            (#[trigger] vs[i]).0,
        ) ==> vs[i].1.len() == max_size
}

/// Appends to `out` the cells of the subtree rooted at cell `id`, which holds
/// the points of `members`.
fn derive(
    grid: &Vec<GridPoint>,
    members: Vec<usize>,
    id: CellIdentifier,
    max_size: usize,
    seed: Option<u64>,
    out: &mut Vec<Cell>,
)
    requires
        max_size > 0,
        members@.len() > 0,
        forall|t: int| 0 <= t < members@.len() ==> #[trigger] members@[t] < grid@.len(),
        cells_bounded(old(out)@, max_size as nat, grid@.len()),
    ensures
        cells_bounded(final(out)@, max_size as nat, grid@.len()),
        cell_rows(final(out)@).to_multiset() =~= cell_rows(old(out)@).to_multiset().add(
            members@.to_multiset(),
        ),
        cells_view(final(out)@) == cells_view(old(out)@) + subtree(
            grid@,
            members@,
            id.path@,
            max_size as nat,
            seed.unwrap_or(0),
        ),
        final(out)@.len() > old(out)@.len(),
        cells_view(final(out)@)[old(out)@.len() as int].0 == id.path@,
        cells_view(final(out)@)[old(out)@.len() as int].1.len() == if members@.len() <= max_size {
            members@.len()
        } else {
            max_size as nat
        },
        under(cells_view(final(out)@), old(out)@.len() as int, id.path@),
        inner_cells_full(cells_view(final(out)@), old(out)@.len() as int, max_size as nat),
    decreases members@.len(),
{
    broadcast use vstd::seq_lib::lemma_multiset_commutative;
    broadcast use vstd::seq_lib::group_to_multiset_ensures;
    broadcast use vstd::multiset::lemma_multiset_empty_len;

    let n = members.len();
    if n <= max_size {
        let ghost before = out@;
        let ghost path = id.path@;
        let ghost rows = members@;
        out.push(Cell { id, rows: members });
        proof {
            lemma_cell_rows_push(before, out@.last());
            assert(out@ =~= before.push(out@.last()));
            assert(cells_view(out@) =~= cells_view(before) + seq![(path, rows)]);
            let vs = cells_view(out@);
            assert(vs[before.len() as int] == (path, rows));
            assert(path.subrange(0, path.len() as int) =~= path);
            assert(under(vs, before.len() as int, path));
        }
        return ;
    }
    let seed_number: u64 = match seed {
        Some(s) => s,
        None => 0,
    };
    let positions = seeded_sample(seed_number, n, max_size);
    let keep = positions_mask(&positions, n);
    let rest_mask = negate_mask(&keep);
    let retained = select_copied(&members, &keep);
    let mut rest = select_copied(&members, &rest_mask);
    proof {
        assert(keep@[positions@[0] as int]);
        assert(any_set(keep@, n as nat));
        lemma_count_zero(keep@, n as nat);
        lemma_count_split(keep@, n as nat);
        lemma_masked_len(members@, keep@, n as nat);
        lemma_masked_len(members@, rest_mask@, n as nat);
        lemma_masked_split(members@, keep@, n as nat);
        assert(members@.subrange(0, n as int) =~= members@);
        assert forall|t: int| 0 <= t < rest@.len() implies #[trigger] rest@[t] < grid@.len() by {
            crate::selection::lemma_masked_index(members@, rest_mask@, n as nat, t);
        }
        lemma_positions_count(positions@, n as nat);
        assert forall|t: int| 0 <= t < retained@.len() implies #[trigger] retained@[t] < grid@.len() by {
            crate::selection::lemma_masked_index(members@, keep@, n as nat, t);
        }
        assert(keep@ == positions_seq_mask(positions@, n as nat));
    }
    let ghost before = out@;
    let ghost seed_value = seed.unwrap_or(0);
    let level = id.level();
    proof {
        assert(keep@ =~= sample_mask(seed_value, n as nat, max_size as nat));
        assert(subtree(grid@, members@, id.path@, max_size as nat, seed_value) == seq![
            (id.path@, retained@),
        ] + children(grid@, rest@, id.path@, 0, max_size as nat, seed_value));
    }
    let ghost retained_rows = retained@;
    out.push(Cell { id: CellIdentifier { path: copy_path(&id.path) }, rows: retained });
    proof {
        lemma_cell_rows_push(before, out@.last());
        assert(out@ =~= before.push(out@.last()));
        assert(cells_view(out@) =~= cells_view(before) + seq![(id.path@, retained_rows)]);
        assert(retained_rows.len() == max_size);
        let vs = cells_view(out@);
        assert(vs[before.len() as int] == (id.path@, retained_rows));
        assert(id.path@.subrange(0, id.path@.len() as int) =~= id.path@);
        assert(under(vs, before.len() as int, id.path@));
    }
    let ghost base = before.len() as int;
    let mut o: usize = 0;
    while o < OCTANT_COUNT
        invariant
            max_size > 0,
            0 <= o <= OCTANT_COUNT,
            level == id.path@.len(),
            rest@.len() < n,
            n == members@.len(),
            forall|t: int| 0 <= t < rest@.len() ==> #[trigger] rest@[t] < grid@.len(),
            forall|t: int|
                0 <= t < rest@.len() ==> (#[trigger] octant_at(grid@[rest@[t] as int], level as nat)).spec_index() >= o,
            cells_bounded(out@, max_size as nat, grid@.len()),
            cell_rows(out@).to_multiset().add(rest@.to_multiset()) =~= cell_rows(
                old(out)@,
            ).to_multiset().add(members@.to_multiset()),
            seed_value == seed.unwrap_or(0),
            cells_view(out@) + children(grid@, rest@, id.path@, o as nat, max_size as nat, seed_value)
                == cells_view(old(out)@) + subtree(grid@, members@, id.path@, max_size as nat, seed_value),
            base == old(out)@.len(),
            out@.len() > base,
            cells_view(out@)[base] == (id.path@, retained_rows),
            retained_rows.len() == max_size,
            under(cells_view(out@), base, id.path@),
            forall|i: int|
                base < i < out@.len() ==> id.path@.len() < (#[trigger] cells_view(out@)[i]).0.len()
                    && cells_view(out@)[i].0[id.path@.len() as int].spec_index() < o,
            inner_cells_full(cells_view(out@), base, max_size as nat),
        decreases OCTANT_COUNT - o,
    {
        let octant = Octant::at(o);
        let in_child = octant_members(grid, &rest, level, octant);
        let not_in_child = negate_mask(&in_child);
        let child = select_copied(&rest, &in_child);
        let remaining = select_copied(&rest, &not_in_child);
        proof {
            let m = rest@.len() as nat;
            lemma_masked_split(rest@, in_child@, m);
            assert(rest@.subrange(0, m as int) =~= rest@);
            lemma_masked_len(rest@, in_child@, m);
            lemma_masked_len(rest@, not_in_child@, m);
            lemma_count_split(in_child@, m);
            assert forall|t: int| 0 <= t < child@.len() implies #[trigger] child@[t]
                < grid@.len() by {
                crate::selection::lemma_masked_index(rest@, in_child@, m, t);
            }
            assert forall|t: int| 0 <= t < remaining@.len() implies #[trigger] remaining@[t]
                < grid@.len() && octant_at(grid@[remaining@[t] as int], level as nat).spec_index()
                >= o + 1 by {
                crate::selection::lemma_masked_index(rest@, not_in_child@, m, t);
                let i = choose|i: int|
                    0 <= i < m && not_in_child@[i] && masked(rest@, not_in_child@, m)[t] == rest@[i];
                let a = octant_at(grid@[rest@[i] as int], level as nat);
                lemma_octant_roundtrip(a);
                assert(!in_child@[i]);
                assert(a != octant);
            }
        }
        let ghost spec_rest = rest@;
        let ghost spec_child = child@;
        let ghost spec_remaining = remaining@;
        proof {
            assert(children(grid@, spec_rest, id.path@, o as nat, max_size as nat, seed_value) == (
            if spec_child.len() > 0 {
                subtree(grid@, spec_child, id.path@.push(octant), max_size as nat, seed_value)
            } else {
                Seq::empty()
            }) + children(grid@, spec_remaining, id.path@, (o + 1) as nat, max_size as nat, seed_value));
        }
        if child.len() > 0 {
            let child_id = id.append(octant);
            let ghost mid = out@;
            derive(grid, child, child_id, max_size, seed, out);
            proof {
                assert(cells_view(out@).subrange(0, cells_view(mid).len() as int) =~= cells_view(mid));
                lemma_segment_joined(
                    cells_view(mid),
                    cells_view(out@),
                    base,
                    id.path@,
                    octant,
                    o as nat,
                    max_size as nat,
                );
                assert(cells_view(out@) + children(grid@, spec_remaining, id.path@, (o + 1) as nat, max_size as nat, seed_value)
                    =~= cells_view(mid) + children(grid@, spec_rest, id.path@, o as nat, max_size as nat, seed_value));
                assert(cell_rows(out@).to_multiset().add(remaining@.to_multiset()) =~= cell_rows(
                    old(out)@,
                ).to_multiset().add(members@.to_multiset()));
            }
        } else {
            proof {
                child@.to_multiset_ensures();
                assert(child@.to_multiset().len() == 0);
                assert(child@.to_multiset() =~= Multiset::empty());
            }
        }
        rest = remaining;
        o = o + 1;
    }
    proof {
        if rest@.len() > 0 {
            let a = octant_at(grid@[rest@[0] as int], level as nat);
            lemma_octant_roundtrip(a);
            assert(a.spec_index() >= 8);
        }
        rest@.to_multiset_ensures();
        assert(cells_view(out@) + children(grid@, rest@, id.path@, 8, max_size as nat, seed_value) =~= cells_view(out@));
        assert(rest@.to_multiset() =~= Multiset::empty());
    }
}

proof fn lemma_octant_roundtrip(a: Octant)
    ensures
        a.spec_index() < OCTANT_COUNT,
        Octant::spec_at(a.spec_index()) == a,
{
}

/// Appending the cells of the subtree of child `octant` of cell `path` keeps
/// the cells below `path` in order: they stay below it, the child cells carry
/// `octant` at the child's level, and full inner cells stay full.
proof fn lemma_segment_joined(
    before: Seq<(Seq<Octant>, Seq<usize>)>,
    after: Seq<(Seq<Octant>, Seq<usize>)>,
    base: int,
    path: Seq<Octant>,
    octant: Octant,
    o: nat,
    max_size: nat,
)
    requires
        0 <= base < before.len() <= after.len(),
        after.subrange(0, before.len() as int) == before,
        before[base] == (path, before[base].1),
        before[base].1.len() == max_size,
        under(before, base, path),
        forall|i: int|
            base < i < before.len() ==> path.len() < (#[trigger] before[i]).0.len()
                && before[i].0[path.len() as int].spec_index() < o,
        inner_cells_full(before, base, max_size),
        octant.spec_index() == o,
        under(after, before.len() as int, path.push(octant)),
        inner_cells_full(after, before.len() as int, max_size),
    ensures
        after[base] == before[base],
        under(after, base, path),
        forall|i: int|
            base < i < after.len() ==> path.len() < (#[trigger] after[i]).0.len()
                && after[i].0[path.len() as int].spec_index() < o + 1,
        inner_cells_full(after, base, max_size),
{
    let m = before.len() as int;
    let n = path.len() as int;
    assert forall|i: int| 0 <= i < m implies after[i] == before[i] by {
        assert(after.subrange(0, m)[i] == after[i]);
    }
    assert forall|i: int| m <= i < after.len() implies n < (#[trigger] after[i]).0.len()
        && after[i].0.subrange(0, n) == path && after[i].0[n] == octant by {
        let p = after[i].0;
        assert(p.subrange(0, n + 1) == path.push(octant));
        assert(p.subrange(0, n) =~= path.push(octant).subrange(0, n));
        assert(path.push(octant).subrange(0, n) =~= path);
        assert(p[n] == p.subrange(0, n + 1)[n]);
    }
    assert forall|i: int| base <= i < after.len() implies path.len() <= (#[trigger] after[i]).0.len()
        && after[i].0.subrange(0, n) == path by {
        if i < m {
            assert(after[i] == before[i]);
        }
    }
    assert forall|i: int| base < i < after.len() implies path.len() < (#[trigger] after[i]).0.len()
        && after[i].0[n].spec_index() < o + 1 by {
        if i < m {
            assert(after[i] == before[i]);
        }
    }
    assert forall|i: int, j: int|
        base <= i < after.len() && base <= j < after.len() && extends(
            (#[trigger] after[j]).0,
            (#[trigger] after[i]).0,
        ) implies after[i].1.len() == max_size by {
        let pi = after[i].0;
        let pj = after[j].0;
        if i < m && j < m {
            assert(after[i] == before[i] && after[j] == before[j]);
            assert(extends(before[j].0, before[i].0));
        } else if i >= m && j >= m {
        } else if i < m {
            assert(after[i] == before[i]);
            if i != base {
                assert(pj.subrange(0, pi.len() as int)[n] == pj[n]);
                assert(pi[n].spec_index() < o);
                assert(pj[n] == octant);
            }
        } else {
            assert(after[j] == before[j]);
            if j == base {
                assert(pj.len() == n);
            } else {
                assert(pj.subrange(0, pi.len() as int)[n] == pj[n]);
                assert(pj[n].spec_index() < o);
                assert(pi[n] == octant);
            }
        }
    }
}

fn copy_path(path: &Vec<Octant>) -> (r: Vec<Octant>)
    ensures
        r@ == path@,
{
    let mut r: Vec<Octant> = Vec::new();
    let mut i: usize = 0;
    while i < path.len()
        invariant
            i <= path@.len(),
            r@ == path@.subrange(0, i as int),
        decreases path@.len() - i,
    {
        r.push(path[i]);
        proof {
            assert(r@ =~= path@.subrange(0, i + 1));
        }
        i = i + 1;
    }
    proof {
        assert(r@ =~= path@);
    }
    r
}

/// Row `row` carries the octant index of a cell before position `upto` that
/// holds it.
pub open spec fn index_assigned(cells: Seq<Cell>, v: Seq<OctantIndex>, row: int, upto: int) -> bool {
    exists|k: int|
        0 <= k < upto && #[trigger] cells[k].rows@.contains(row as usize) && v[row]
            == index_of_path(cells[k].id.path@)
}

/// Some cell before position `upto` holds row `row`.
pub open spec fn row_in_cells(cells: Seq<Cell>, row: int, upto: int) -> bool {
    exists|k: int| 0 <= k < upto && #[trigger] cells[k].rows@.contains(row as usize)
}

proof fn lemma_cell_rows_contains(cells: Seq<Cell>, x: usize)
    requires
        cell_rows(cells).contains(x),
    ensures
        row_in_cells(cells, x as int, cells.len() as int),
    decreases cells.len(),
{
    assert(cells.len() > 0);
    let init = cells.drop_last();
    let last = cells.last();
    assert(cell_rows(cells) == cell_rows(init) + last.rows@);
    let i = choose|i: int| 0 <= i < cell_rows(cells).len() && cell_rows(cells)[i] == x;
    if i < cell_rows(init).len() {
        assert(cell_rows(init)[i] == x);
        lemma_cell_rows_contains(init, x);
        let k = choose|k: int| 0 <= k < init.len() && #[trigger] init[k].rows@.contains(x);
        assert(cells[k] == init[k]);
        assert(cells[k].rows@.contains((x as int) as usize));
    } else {
        assert(last.rows@[i - cell_rows(init).len()] == x);
        assert(cells[cells.len() - 1].rows@.contains((x as int) as usize));
    }
}

proof fn lemma_row_in_some_cell(cells: Seq<Cell>, n: nat, row: int)
    requires
        cell_rows(cells).to_multiset() =~= all_rows(n).to_multiset(),
        0 <= row < n,
        n <= usize::MAX + 1,
    ensures
        row_in_cells(cells, row, cells.len() as int),
{
    broadcast use vstd::seq_lib::group_to_multiset_ensures;

    assert(all_rows(n)[row] == row as usize);
    assert(all_rows(n).contains(row as usize));
    assert(all_rows(n).to_multiset().count(row as usize) > 0);
    assert(cell_rows(cells).contains(row as usize));
    lemma_cell_rows_contains(cells, row as usize);
}

/// Rows `0, 1, ..., n - 1`.
pub open spec fn all_rows(n: nat) -> Seq<usize> {
    Seq::new(n, |i: int| i as usize)
}

/// The tree's cells are those that the construction defines for the points,
/// the cell size and the seed.
pub open spec fn built_from(t: Octree, grid: Seq<GridPoint>, max_size: nat, seed: u64) -> bool {
    cells_view(t.cells@) == subtree(grid, all_rows(grid.len()), Seq::empty(), max_size, seed)
}

/// The first cell is the root and holds `min(size, max_size)` points, and
/// every cell that has a cell below it holds exactly `max_size` points.
pub open spec fn well_shaped(t: Octree) -> bool {
    &&& t.cells@.len() > 0
    &&& cells_view(t.cells@)[0].0 == Seq::<Octant>::empty()
    &&& cells_view(t.cells@)[0].1.len() == if t.size <= t.max_size {
        t.size as nat
    } else {
        t.max_size as nat
    }
    &&& inner_cells_full(cells_view(t.cells@), 0, t.max_size as nat)
}

/// Octree construction is deterministic: two trees built from the same
/// points with the same cell size and seed hold the same cells, with the same
/// addresses and the same points, in the same order.
pub proof fn lemma_octree_deterministic(
    a: Octree,
    b: Octree,
    grid: Seq<GridPoint>,
    max_size: nat,
    seed: u64,
)
    requires
        built_from(a, grid, max_size, seed),
        built_from(b, grid, max_size, seed),
    ensures
        cells_view(a.cells@) == cells_view(b.cells@),
{
}

/// A partition of the points into a tree of cells, each holding at most
/// `max_size` points directly.
#[derive(Debug, Clone)]
pub struct Octree {
    pub cells: Vec<Cell>,
    /// Number of points the tree was built from.
    pub size: usize,
    pub max_size: usize,
}

impl Octree {
    /// Every cell holds between one and `max_size` of the points, and every
    /// point lies in exactly one cell.
    pub open spec fn wf(&self) -> bool {
        &&& cells_bounded(self.cells@, self.max_size as nat, self.size as nat)
        &&& cell_rows(self.cells@).to_multiset() =~= all_rows(self.size as nat).to_multiset()
    }

    /// For every point, the octant index of the cell that holds it; fails
    /// where a cell lies deeper than level 64.
    pub fn octant_indices(&self) -> (r: Result<Vec<OctantIndex>, Error>)
        requires
            self.wf(),
        ensures
            (exists|c: int| 0 <= c < self.cells@.len() && #[trigger] self.cells@[c].id.path@.len() > 64)
                <==> r == Err::<Vec<OctantIndex>, Error>(Error::InvalidNumber),
            r matches Ok(v) ==> v@.len() == self.size && forall|row: int|
                0 <= row < self.size ==> #[trigger] index_assigned(
                    self.cells@,
                    v@,
                    row,
                    self.cells@.len() as int,
                ),
    {
        let n = self.size;
        let root = OctantIndex { level: 0, x: 0, y: 0, z: 0 };
        let mut v: Vec<OctantIndex> = Vec::new();
        let mut i: usize = 0;
        while i < n
            invariant
                i <= n,
                v@.len() == i,
            decreases n - i,
        {
            v.push(root);
            i = i + 1;
        }
        let mut c: usize = 0;
        while c < self.cells.len()
            invariant
                self.wf(),
                n == self.size,
                c <= self.cells@.len(),
                v@.len() == n,
                forall|k: int| 0 <= k < c ==> #[trigger] self.cells@[k].id.path@.len() <= 64,
                forall|row: int|
                    0 <= row < n && #[trigger] row_in_cells(self.cells@, row, c as int)
                        ==> index_assigned(self.cells@, v@, row, c as int),
            decreases self.cells@.len() - c,
        {
            let cell = &self.cells[c];
            let index = match cell.id.octant_index() {
                Ok(index) => index,
                Err(_) => {
                    proof {
                        assert(self.cells@[c as int].id.path@.len() > 64);
                    }
                    return Err(Error::InvalidNumber);
                },
            };
            let ghost before = v@;
            let mut t: usize = 0;
            while t < cell.rows.len()
                invariant
                    self.wf(),
                    n == self.size,
                    c < self.cells@.len(),
                    *cell == self.cells@[c as int],
                    index == index_of_path(cell.id.path@),
                    t <= cell.rows@.len(),
                    v@.len() == n,
                    before.len() == n,
                    forall|row: int|
                        0 <= row < n ==> (#[trigger] v@[row] == before[row] || (
                        cell.rows@.subrange(0, t as int).contains(row as usize) && v@[row] == index)),
                    forall|row: int|
                        0 <= row < n && cell.rows@.subrange(0, t as int).contains(row as usize)
                            ==> #[trigger] v@[row] == index,
                decreases cell.rows@.len() - t,
            {
                let row = cell.rows[t];
                proof {
                    assert(self.cells@[c as int].rows@[t as int] < self.size);
                }
                let ghost prev = v@;
                v.set(row, index);
                proof {
                    assert forall|q: int| 0 <= q < n implies (#[trigger] v@[q] == before[q] || (
                    cell.rows@.subrange(0, t + 1).contains(q as usize) && v@[q] == index)) by {
                        if q == row as int {
                            assert(cell.rows@.subrange(0, t + 1)[t as int] == row);
                        } else if !(prev[q] == before[q]) {
                            let w = choose|w: int| 0 <= w < t && #[trigger] cell.rows@.subrange(0, t as int)[w] == q as usize;
                            assert(cell.rows@.subrange(0, t + 1)[w] == q as usize);
                        }
                    }
                    assert forall|q: int| 0 <= q < n && cell.rows@.subrange(0, t + 1).contains(q as usize)
                        implies #[trigger] v@[q] == index by {
                        if q != row as int {
                            let w = choose|w: int| 0 <= w < t + 1 && #[trigger] cell.rows@.subrange(0, t + 1)[w] == q as usize;
                            if w == t {
                                assert(cell.rows@[t as int] == row);
                            } else {
                                assert(cell.rows@.subrange(0, t as int)[w] == q as usize);
                            }
                        }
                    }
                }
                t = t + 1;
            }
            proof {
                assert(cell.rows@.subrange(0, cell.rows@.len() as int) =~= cell.rows@);
                assert forall|row: int|
                    0 <= row < n && #[trigger] row_in_cells(self.cells@, row, c + 1) implies index_assigned(
                        self.cells@,
                        v@,
                        row,
                        c + 1,
                    ) by {
                    if cell.rows@.contains(row as usize) {
                        assert(v@[row] == index);
                        assert(self.cells@[c as int].rows@.contains(row as usize));
                    } else {
                        let k = choose|k: int| 0 <= k < c + 1 && #[trigger] self.cells@[k].rows@.contains(row as usize);
                        assert(k != c);
                        assert(row_in_cells(self.cells@, row, c as int));
                        assert(index_assigned(self.cells@, before, row, c as int));
                        let k2 = choose|k2: int| 0 <= k2 < c && #[trigger] self.cells@[k2].rows@.contains(row as usize)
                            && before[row] == index_of_path(self.cells@[k2].id.path@);
                        assert(v@[row] == before[row]);
                        assert(self.cells@[k2].rows@.contains(row as usize));
                    }
                }
            }
            c = c + 1;
        }
        proof {
            assert forall|row: int| 0 <= row < n implies #[trigger] index_assigned(
                self.cells@,
                v@,
                row,
                self.cells@.len() as int,
            ) by {
                lemma_row_in_some_cell(self.cells@, self.size as nat, row);
                assert(row_in_cells(self.cells@, row, c as int));
            }
        }
        Ok(v)
    }

    /// Builds the tree over points given by their grid coordinates. A cell
    /// with more than `max_size` points keeps `max_size` of them, drawn with
    /// a generator seeded with `seed` (0 where none is given), and hands the
    /// others down to the children that hold them.
    ///
    /// Every point ends in exactly one cell.
    pub fn new(grid: &Vec<GridPoint>, max_size: usize, seed: Option<u64>) -> (r: Result<
        Self,
        Error,
    >)
        ensures
            max_size == 0 <==> r == Err::<Self, Error>(Error::InvalidNumber),
            max_size > 0 && grid@.len() == 0 <==> r == Err::<Self, Error>(Error::NoData),
            max_size > 0 && grid@.len() > 0 <==> r is Ok,
            r matches Ok(t) ==> t.wf() && t.size == grid@.len() && t.max_size == max_size
                && cell_rows(t.cells@).to_multiset() =~= all_rows(grid@.len()).to_multiset()
                && built_from(t, grid@, max_size as nat, seed.unwrap_or(0)) && well_shaped(t),
    {
        if max_size == 0 {
            return Err(Error::InvalidNumber);
        }
        let n = grid.len();
        if n == 0 {
            return Err(Error::NoData);
        }
        let mut members: Vec<usize> = Vec::new();
        let mut i: usize = 0;
        while i < n
            invariant
                i <= n,
                n == grid@.len(),
                members@ == all_rows(i as nat),
            decreases n - i,
        {
            members.push(i);
            proof {
                assert(members@ =~= all_rows((i + 1) as nat));
            }
            i = i + 1;
        }
        let mut cells: Vec<Cell> = Vec::new();
        proof {
            assert(cells@.len() == 0);
            assert(cell_rows(cells@) =~= Seq::<usize>::empty());
            vstd::seq_lib::lemma_multiset_commutative(Seq::<usize>::empty(), members@);
            assert(Seq::<usize>::empty() + members@ =~= members@);
        }
        derive(grid, members, CellIdentifier::root(), max_size, seed, &mut cells);
        proof {
            assert(cells_view(Seq::<Cell>::empty()) =~= Seq::empty());
            assert(Seq::<(Seq<Octant>, Seq<usize>)>::empty() + subtree(grid@, all_rows(n as nat), Seq::empty(), max_size as nat, seed.unwrap_or(0))
                =~= subtree(grid@, all_rows(n as nat), Seq::empty(), max_size as nat, seed.unwrap_or(0)));
            Seq::<usize>::empty().to_multiset_ensures();
            assert(Seq::<usize>::empty().to_multiset() =~= Multiset::empty());
        }
        Ok(Octree { cells, size: n, max_size })
    }

    /// Number of cells that hold points.
    pub fn number_of_cells(&self) -> (r: usize)
        ensures
            r == self.cells@.len(),
    {
        self.cells.len()
    }

    /// The addresses of all cells.
    pub fn cell_indices(&self) -> (r: Vec<CellIdentifier>)
        ensures
            r@.len() == self.cells@.len(),
            forall|c: int| 0 <= c < r@.len() ==> (#[trigger] r@[c]).path@ == self.cells@[c].id.path@,
    {
        let mut r: Vec<CellIdentifier> = Vec::new();
        let mut c: usize = 0;
        while c < self.cells.len()
            invariant
                c <= self.cells@.len(),
                r@.len() == c,
                forall|k: int| 0 <= k < c ==> (#[trigger] r@[k]).path@ == self.cells@[k].id.path@,
            decreases self.cells@.len() - c,
        {
            r.push(CellIdentifier { path: copy_path(&self.cells[c].id.path) });
            c = c + 1;
        }
        r
    }

    /// Position of the cell with address `id`, if the tree has one.
    pub fn find_cell(&self, id: &CellIdentifier) -> (r: Option<usize>)
        ensures
            r matches Some(c) ==> c < self.cells@.len() && self.cells@[c as int].id.path@ == id.path@,
            r is None ==> forall|c: int| 0 <= c < self.cells@.len() ==> #[trigger] self.cells@[c].id.path@ != id.path@,
    {
        let mut c: usize = 0;
        while c < self.cells.len()
            invariant
                c <= self.cells@.len(),
                forall|k: int| 0 <= k < c ==> #[trigger] self.cells@[k].id.path@ != id.path@,
            decreases self.cells@.len() - c,
        {
            if self.cells[c].id.same_cell(id) {
                return Some(c);
            }
            c = c + 1;
        }
        None
    }

    /// The rows of the points held directly by the cell with address `id`.
    pub fn cell(&self, id: &CellIdentifier) -> (r: Option<&Vec<usize>>)
        ensures
            r matches Some(rows) ==> exists|c: int|
                0 <= c < self.cells@.len() && self.cells@[c].id.path@ == id.path@ && *rows
                    == self.cells@[c].rows,
            r is None ==> forall|c: int| 0 <= c < self.cells@.len() ==> #[trigger] self.cells@[c].id.path@ != id.path@,
    {
        match self.find_cell(id) {
            Some(c) => Some(&self.cells[c].rows),
            None => None,
        }
    }

    /// The points of the cell with address `id`, taken from the store the tree
    /// was built for.
    pub fn extract_octant<P: Copy>(&self, point_data: &PointData<P>, id: &CellIdentifier) -> (r: Result<
        PointData<P>,
        Error,
    >)
        requires
            self.wf(),
            point_data.wf(),
            point_data@.height() == self.size,
        ensures
            r is Err <==> forall|c: int| 0 <= c < self.cells@.len() ==> #[trigger] self.cells@[c].id.path@ != id.path@,
            r is Err ==> r == Err::<PointData<P>, Error>(Error::NoData),
            r matches Ok(d) ==> d.wf() && exists|c: int|
                0 <= c < self.cells@.len() && self.cells@[c].id.path@ == id.path@ && d@
                    == point_data@.take(self.cells@[c].rows@),
    {
        match self.find_cell(id) {
            Some(c) => {
                let rows = &self.cells[c].rows;
                proof {
                    assert(self.cells@[c as int].rows@.len() > 0);
                }
                Ok(point_data.take(rows))
            },
            None => Err(Error::NoData),
        }
    }
}

/// The mask that marks the rows whose octant index is `index`.
pub open spec fn octant_index_mask(indices: Seq<OctantIndex>, index: OctantIndex) -> Seq<bool> {
    Seq::new(indices.len(), |i: int| indices[i] == index)
}

/// `v` gives every point the octant index of the tree's cell that holds it.
pub open spec fn indexes_points(t: Octree, v: Seq<OctantIndex>) -> bool {
    v.len() == t.size && forall|row: int|
        0 <= row < t.size ==> #[trigger] index_assigned(t.cells@, v, row, t.cells@.len() as int)
}

impl<P: Copy> PointData<P> {
    /// Keeps the points whose octant index is `index`; `None` where none is.
    pub fn filter_by_octant_index(&self, index: OctantIndex) -> (r: Result<Option<PointData<P>>, Error>)
        requires
            self.wf(),
        ensures
            self.octant_indices is None <==> r == Err::<Option<PointData<P>>, Error>(
                Error::NoOctantIndicesColumns,
            ),
            self.octant_indices is Some ==> (r matches Ok(o) && (o is None <==> !any_set(
                octant_index_mask(self@.octant_indices.unwrap(), index),
                self@.height(),
            ))),
            r matches Ok(Some(d)) ==> d.wf() && d@ == self@.masked(
                octant_index_mask(self@.octant_indices.unwrap(), index),
            ),
    {
        let octant_indices = match &self.octant_indices {
            Some(v) => v,
            None => {
                return Err(Error::NoOctantIndicesColumns);
            },
        };
        let mut mask: Vec<bool> = Vec::new();
        let mut i: usize = 0;
        while i < octant_indices.len()
            invariant
                i <= octant_indices@.len(),
                mask@ == octant_index_mask(octant_indices@, index).subrange(0, i as int),
            decreases octant_indices@.len() - i,
        {
            mask.push(octant_indices[i] == index);
            proof {
                assert(mask@ =~= octant_index_mask(octant_indices@, index).subrange(0, i + 1));
            }
            i = i + 1;
        }
        proof {
            assert(mask@ =~= octant_index_mask(octant_indices@, index));
        }
        Ok(self.select_by_mask(&mask))
    }

    /// Builds an octree over the points, given by their grid coordinates in
    /// row order, and stores the octant index of each point's cell.
    pub fn compute_octree(
        &mut self,
        grid: &Vec<GridPoint>,
        max_items_per_octant: usize,
        shuffle_seed_number: Option<u64>,
    ) -> (r: Result<(), Error>)
        requires
            old(self).wf(),
        ensures
            final(self).wf(),
            r is Err ==> *final(self) == *old(self),
            grid@.len() != old(self)@.height() ==> r == Err::<(), Error>(Error::ShapeMismatch),
            r is Ok ==> final(self).points == old(self).points && final(self).ids == old(self).ids
                && final(self).frame_ids == old(self).frame_ids && final(self).timestamps == old(
                self,
            ).timestamps && final(self).octant_indices is Some && exists|tree: Octree|
                built_from(
                    tree,
                    grid@,
                    max_items_per_octant as nat,
                    shuffle_seed_number.unwrap_or(0),
                ) && #[trigger] tree.wf() && tree.size == grid@.len() && indexes_points(
                    tree,
                    final(self)@.octant_indices.unwrap(),
                ),
    {
        if grid.len() != self.points.len() {
            return Err(Error::ShapeMismatch);
        }
        let tree = match Octree::new(grid, max_items_per_octant, shuffle_seed_number) {
            Ok(t) => t,
            Err(e) => {
                return Err(e);
            },
        };
        let indices = match tree.octant_indices() {
            Ok(v) => v,
            Err(e) => {
                return Err(e);
            },
        };
        match self.add_octant_indices(indices) {
            Ok(()) => Ok(()),
            Err(e) => Err(e),
        }
    }
}

/// A point cloud together with an octree over its points.
#[derive(Debug, Clone)]
pub struct PointCloudOctree<P, G> {
    pub point_cloud: PointCloud<P, G>,
    pub octree: Octree,
}

impl<P: Copy, G: Clone> PointCloudOctree<P, G> {
    /// Builds the octree over the cloud's points, given by their grid
    /// coordinates in row order.
    pub fn new(
        point_cloud: PointCloud<P, G>,
        grid: &Vec<GridPoint>,
        max_points_per_octant: usize,
        shuffle_seed_number: Option<u64>,
    ) -> (r: Result<Self, Error>)
        requires
            point_cloud.wf(),
        ensures
            grid@.len() != point_cloud.point_data@.height() ==> r == Err::<Self, Error>(
                Error::ShapeMismatch,
            ),
            grid@.len() == point_cloud.point_data@.height() && max_points_per_octant == 0 ==> r
                == Err::<Self, Error>(Error::InvalidNumber),
            grid@.len() == point_cloud.point_data@.height() && max_points_per_octant > 0 ==> r is Ok,
            r matches Ok(t) ==> t.point_cloud == point_cloud && t.octree.wf() && well_shaped(
                t.octree,
            ) && t.octree.max_size == max_points_per_octant && t.octree.size
                == grid@.len() && built_from(
                t.octree,
                grid@,
                max_points_per_octant as nat,
                shuffle_seed_number.unwrap_or(0),
            ),
    {
        if grid.len() != point_cloud.size() {
            return Err(Error::ShapeMismatch);
        }
        match Octree::new(grid, max_points_per_octant, shuffle_seed_number) {
            Ok(octree) => Ok(PointCloudOctree { point_cloud, octree }),
            Err(e) => Err(e),
        }
    }

    /// The addresses of the cells that hold points.
    pub fn cell_indices(&self) -> (r: Vec<CellIdentifier>)
        ensures
            r@.len() == self.octree.cells@.len(),
            forall|c: int|
                0 <= c < r@.len() ==> (#[trigger] r@[c]).path@ == self.octree.cells@[c].id.path@,
    {
        self.octree.cell_indices()
    }

    /// The points of one cell as a cloud of their own, with the same metadata.
    pub fn extract_octant(&self, index: &CellIdentifier) -> (r: Result<PointCloud<P, G>, Error>)
        requires
            self.point_cloud.wf(),
            self.octree.wf(),
            self.octree.size == self.point_cloud.point_data@.height(),
        ensures
            r is Err <==> forall|c: int|
                0 <= c < self.octree.cells@.len() ==> #[trigger] self.octree.cells@[c].id.path@
                    != index.path@,
            r is Err ==> r == Err::<PointCloud<P, G>, Error>(Error::NoData),
            r matches Ok(p) ==> p.wf() && p.info == self.point_cloud.info && cloned(
                self.point_cloud.transform_tree,
                p.transform_tree,
            ) && exists|c: int|
                0 <= c < self.octree.cells@.len() && self.octree.cells@[c].id.path@ == index.path@
                    && p.point_data@ == self.point_cloud.point_data@.take(
                    self.octree.cells@[c].rows@,
                ),
    {
        match self.octree.extract_octant(&self.point_cloud.point_data, index) {
            Ok(d) => Ok(self.point_cloud.with_point_data(d)),
            Err(e) => Err(e),
        }
    }
}

} // verus!
