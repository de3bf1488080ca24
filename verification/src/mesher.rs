//! Which tiles of a chunk connect to their neighbours, for choosing tile sprites.
use vstd::prelude::*;

verus! {

/// Whether a tile joins up with neighbouring tiles of the same kind.
#[derive(Clone, Copy, PartialEq, Eq, Structural)]
pub enum ConnectionType {
    Connected,
    Isolated,
}

/// A side of a tile.
#[derive(Clone, Copy, PartialEq, Eq, Structural)]
pub enum Direction {
    Top,
    Left,
    Bottom,
    Right,
}

/// The side opposite to `d`.
pub open spec fn flipped(d: Direction) -> Direction {
    match d {
        Direction::Top => Direction::Bottom,
        Direction::Bottom => Direction::Top,
        Direction::Left => Direction::Right,
        Direction::Right => Direction::Left,
    }
}

impl Direction {
    /// The side opposite to this one.
    pub fn flip(self) -> (r: Direction)
        ensures
            r == flipped(self),
    {
        match self {
            Direction::Top => Direction::Bottom,
            Direction::Bottom => Direction::Top,
            Direction::Left => Direction::Right,
            Direction::Right => Direction::Left,
        }
    }
}

/// How a tile connects on each of its sides.
#[derive(Clone, Copy, PartialEq, Eq, Structural)]
pub struct NeighborMatrix {
    pub up: ConnectionType,
    pub dw: ConnectionType,
    pub lf: ConnectionType,
    pub rg: ConnectionType,
}

/// `m` with its side `dir` set to `ty`.
pub open spec fn with_side(m: NeighborMatrix, dir: Direction, ty: ConnectionType) -> NeighborMatrix {
    match dir {
        Direction::Top => NeighborMatrix { up: ty, ..m },
        Direction::Bottom => NeighborMatrix { dw: ty, ..m },
        Direction::Left => NeighborMatrix { lf: ty, ..m },
        Direction::Right => NeighborMatrix { rg: ty, ..m },
    }
}

/// A tile connected on no side.
pub open spec fn empty_matrix() -> NeighborMatrix {
    NeighborMatrix {
        up: ConnectionType::Isolated,
        dw: ConnectionType::Isolated,
        lf: ConnectionType::Isolated,
        rg: ConnectionType::Isolated,
    }
}

impl NeighborMatrix {
    /// Sets how the tile connects on one side.
    pub fn set(&mut self, dir: Direction, ty: ConnectionType)
        ensures
            final(self).up == (if dir == Direction::Top { ty } else { old(self).up }),
            final(self).lf == (if dir == Direction::Left { ty } else { old(self).lf }),
            final(self).dw == (if dir == Direction::Bottom { ty } else { old(self).dw }),
            final(self).rg == (if dir == Direction::Right { ty } else { old(self).rg }),
            *final(self) == with_side(*old(self), dir, ty),
    {
        match dir {
            Direction::Top => self.up = ty,
            Direction::Left => self.lf = ty,
            Direction::Bottom => self.dw = ty,
            Direction::Right => self.rg = ty,
        }
    }
}

/// The cell at row `y`, column `x` of a square grid of side `n`, stored row by row.
pub open spec fn cell(n: int, y: int, x: int) -> int {
    y * n + x
}

proof fn lemma_cell(n: int, y: int, x: int)
    requires
        0 <= y < n,
        0 <= x < n,
    ensures
        0 <= cell(n, y, x) < n * n,
        cell(n, y + 1, x) == cell(n, y, x) + n,
        y + 1 < n ==> cell(n, y + 1, x) < n * n,
{
    assert(0 <= y * n + x < n * n) by (nonlinear_arith)
        requires
            0 <= y < n,
            0 <= x < n,
    ;
    assert((y + 1) * n + x == y * n + x + n) by (nonlinear_arith);
    assert(y + 1 < n ==> (y + 1) * n + x < n * n) by (nonlinear_arith)
        requires
            0 <= x < n,
    ;
}

proof fn lemma_cell_injective(n: int, y1: int, x1: int, y2: int, x2: int)
    requires
        0 <= y1 < n,
        0 <= x1 < n,
        0 <= y2 < n,
        0 <= x2 < n,
        cell(n, y1, x1) == cell(n, y2, x2),
    ensures
        y1 == y2,
        x1 == x2,
{
    if y1 < y2 {
        assert(y1 * n + x1 < y2 * n + x2) by (nonlinear_arith)
            requires
                y1 < y2,
                0 <= x1 < n,
                0 <= x2,
        ;
    } else if y2 < y1 {
        assert(y2 * n + x2 < y1 * n + x1) by (nonlinear_arith)
            requires
                y2 < y1,
                0 <= x2 < n,
                0 <= x1,
        ;
    }
}

/// Whether the tile in a cell is one that connects.
pub open spec fn connects(tiles: Seq<Option<ConnectionType>>, i: int) -> bool {
    tiles[i] == Some(ConnectionType::Connected)
}

/// The tile at `(y, x)` and the one above it both connect.
pub open spec fn joins_up(tiles: Seq<Option<ConnectionType>>, n: int, y: int, x: int) -> bool {
    y + 1 < n && connects(tiles, cell(n, y, x)) && connects(tiles, cell(n, y + 1, x))
}

/// The tile at `(y, x)` and the one to its right both connect.
pub open spec fn joins_right(tiles: Seq<Option<ConnectionType>>, n: int, y: int, x: int) -> bool {
    x + 1 < n && connects(tiles, cell(n, y, x)) && connects(tiles, cell(n, y, x + 1))
}

/// The render state of a square chunk of tiles: the tile in each cell, if any, and how
/// each cell connects to its neighbours.
pub struct RenderChunk {
    size: usize,
    tile: Vec<Option<ConnectionType>>,
    tile_neighbor: Vec<NeighborMatrix>,
}

impl RenderChunk {
    pub closed spec fn size(&self) -> nat {
        self.size as nat
    }

    pub closed spec fn tiles(&self) -> Seq<Option<ConnectionType>> {
        self.tile@
    }

    pub closed spec fn neighbors(&self) -> Seq<NeighborMatrix> {
        self.tile_neighbor@
    }

    /// Both grids have `size * size` cells.
    pub open spec fn wf(&self) -> bool {
        &&& self.tiles().len() == self.size() * self.size()
        &&& self.neighbors().len() == self.size() * self.size()
    }

    /// The render state of a chunk whose cells hold the given tile ids (row by row, `size`
    /// cells a row): a cell shows a tile when `lookup` has a render tile for its id.
    /// No cell is connected yet.
    pub fn new(size: usize, tile_ids: &Vec<u32>, lookup: &Vec<Option<ConnectionType>>) -> (r: RenderChunk)
        requires
            tile_ids@.len() == size * size,
        ensures
            r.wf(),
            r.size() == size,
            forall|i: int| 0 <= i < size * size ==> #[trigger] r.tiles()[i] == (
                if (tile_ids@[i] as int) < lookup@.len() { lookup@[tile_ids@[i] as int] } else { None }),
            forall|i: int| 0 <= i < size * size ==> #[trigger] r.neighbors()[i] == empty_matrix(),
    {
        let mut tile: Vec<Option<ConnectionType>> = Vec::new();
        let mut tile_neighbor: Vec<NeighborMatrix> = Vec::new();
        let empty = NeighborMatrix {
            up: ConnectionType::Isolated,
            dw: ConnectionType::Isolated,
            lf: ConnectionType::Isolated,
            rg: ConnectionType::Isolated,
        };
        let mut i: usize = 0;
        while i < tile_ids.len()
            invariant
                i <= tile_ids@.len(),
                tile@.len() == i,
                tile_neighbor@.len() == i,
                empty == empty_matrix(),
                forall|j: int| 0 <= j < i ==> #[trigger] tile@[j] == (
                    if (tile_ids@[j] as int) < lookup@.len() { lookup@[tile_ids@[j] as int] } else { None }),
                forall|j: int| 0 <= j < i ==> #[trigger] tile_neighbor@[j] == empty_matrix(),
            decreases tile_ids@.len() - i,
        {
            let id = tile_ids[i] as usize;
            let render_tile = if id < lookup.len() { lookup[id] } else { None };
            tile.push(render_tile);
            tile_neighbor.push(empty);
            i = i + 1;
        }
        RenderChunk { size, tile, tile_neighbor }
    }

    /// The connection sides of the cell at row `y`, column `x`.
    pub fn neighbor(&self, y: usize, x: usize) -> (r: NeighborMatrix)
        requires
            self.wf(),
            y < self.size(),
            x < self.size(),
        ensures
            r == self.neighbors()[cell(self.size() as int, y as int, x as int)],
    {
        // The length bounds `size * size`, so the index below cannot overflow.
        let total: usize = self.tile_neighbor.len();
        proof {
            lemma_cell(self.size() as int, y as int, x as int);
        }
        self.tile_neighbor[y * self.size + x]
    }

    /// Connects every connecting tile with the connecting tiles above and to its right,
    /// on both sides of each joint. Nothing else changes.
    pub fn compile_internal(&mut self)
        requires
            old(self).wf(),
        ensures
            final(self).wf(),
            final(self).size() == old(self).size(),
            final(self).tiles() == old(self).tiles(),
            forall|y: int, x: int|
                #![trigger final(self).neighbors()[cell(old(self).size() as int, y, x)]]
                0 <= y < old(self).size() && 0 <= x < old(self).size() ==>
                final(self).neighbors()[cell(old(self).size() as int, y, x)] == compiled(
                    old(self).tiles(),
                    old(self).size() as int,
                    old(self).neighbors()[cell(old(self).size() as int, y, x)],
                    y,
                    x,
                ),
    {
        let n: usize = self.size;
        let ghost t = self.tile@;
        let ghost start = self.tile_neighbor@;
        let total: usize = self.tile_neighbor.len();
        let mut y: usize = 0;
        while y < n
            invariant
                n == self.size,
                n * n == total,
                y <= n,
                self.tile@ == t,
                t.len() == n * n,
                self.tile_neighbor@.len() == n * n,
                start.len() == n * n,
                forall|b: int, a: int|
                    #![trigger self.tile_neighbor@[cell(n as int, b, a)]]
                    0 <= b < n && 0 <= a < n ==> self.tile_neighbor@[cell(n as int, b, a)]
                        == matrix_after(t, n as int, start[cell(n as int, b, a)], b, a, y as int, 0),
            decreases n - y,
        {
            let mut x: usize = 0;
            while x < n
                invariant
                    n == self.size,
                    n * n == total,
                    y < n,
                    x <= n,
                    self.tile@ == t,
                    t.len() == n * n,
                    self.tile_neighbor@.len() == n * n,
                    start.len() == n * n,
                    forall|b: int, a: int|
                        #![trigger self.tile_neighbor@[cell(n as int, b, a)]]
                        0 <= b < n && 0 <= a < n ==> self.tile_neighbor@[cell(n as int, b, a)]
                            == matrix_after(t, n as int, start[cell(n as int, b, a)], b, a, y as int, x as int),
                decreases n - x,
            {
                proof {
                    lemma_cell(n as int, y as int, x as int);
                }
                let ghost prev = self.tile_neighbor@;
                connect_cell(&self.tile, &mut self.tile_neighbor, n, y, x);
                proof {
                    lemma_step(t, n as int, start, prev, self.tile_neighbor@, y as int, x as int);
                }
                x = x + 1;
            }
            proof {
                assert forall|b: int, a: int|
                    #![trigger self.tile_neighbor@[cell(n as int, b, a)]]
                    0 <= b < n && 0 <= a < n implies self.tile_neighbor@[cell(n as int, b, a)]
                        == matrix_after(t, n as int, start[cell(n as int, b, a)], b, a, (y + 1) as int, 0) by {
                    assert(self.tile_neighbor@[cell(n as int, b, a)]
                        == matrix_after(t, n as int, start[cell(n as int, b, a)], b, a, y as int, n as int));
                }
            }
            y = y + 1;
        }
        proof {
            assert forall|b: int, a: int|
                #![trigger self.tile_neighbor@[cell(n as int, b, a)]]
                0 <= b < n && 0 <= a < n implies self.tile_neighbor@[cell(n as int, b, a)]
                    == compiled(t, n as int, start[cell(n as int, b, a)], b, a) by {
                assert(self.tile_neighbor@[cell(n as int, b, a)]
                    == matrix_after(t, n as int, start[cell(n as int, b, a)], b, a, n as int, 0));
            }
        }
    }
}

/// Cell `j` after connecting cell `(y, x)` with the cells above and to its right.
pub open spec fn step_cell(t: Seq<Option<ConnectionType>>, n: int, prev: NeighborMatrix, j: int, y: int, x: int) -> NeighborMatrix {
    let i = cell(n, y, x);
    NeighborMatrix {
        up: if j == i && joins_up(t, n, y, x) { ConnectionType::Connected } else { prev.up },
        dw: if j == i + n && joins_up(t, n, y, x) { ConnectionType::Connected } else { prev.dw },
        rg: if j == i && joins_right(t, n, y, x) { ConnectionType::Connected } else { prev.rg },
        lf: if j == i + 1 && joins_right(t, n, y, x) { ConnectionType::Connected } else { prev.lf },
    }
}

/// Cell `j` after connecting cell `(y, x)` with the cell above it.
pub open spec fn up_part(t: Seq<Option<ConnectionType>>, n: int, prev: NeighborMatrix, j: int, y: int, x: int) -> NeighborMatrix {
    let i = cell(n, y, x);
    NeighborMatrix {
        up: if j == i && joins_up(t, n, y, x) { ConnectionType::Connected } else { prev.up },
        dw: if j == i + n && joins_up(t, n, y, x) { ConnectionType::Connected } else { prev.dw },
        rg: prev.rg,
        lf: prev.lf,
    }
}

/// Connects cell `i` on its top side and cell `i + n` on its bottom side.
fn mark_up(neighbors: &mut Vec<NeighborMatrix>, i: usize, n: usize)
    requires
        i + n < old(neighbors)@.len(),
        n > 0,
    ensures
        final(neighbors)@.len() == old(neighbors)@.len(),
        forall|j: int| 0 <= j < old(neighbors)@.len() ==> #[trigger] final(neighbors)@[j] == (NeighborMatrix {
            up: if j == i { ConnectionType::Connected } else { old(neighbors)@[j].up },
            dw: if j == i + n { ConnectionType::Connected } else { old(neighbors)@[j].dw },
            rg: old(neighbors)@[j].rg,
            lf: old(neighbors)@[j].lf,
        }),
{
    // The length bounds `i + n`, so the index below cannot overflow.
    let len: usize = neighbors.len();
    let mut m = neighbors[i];
    m.up = ConnectionType::Connected;
    neighbors.set(i, m);
    let mut above = neighbors[i + n];
    above.dw = ConnectionType::Connected;
    neighbors.set(i + n, above);
}

/// Connects cell `i` on its right side and cell `i + 1` on its left side.
fn mark_right(neighbors: &mut Vec<NeighborMatrix>, i: usize)
    requires
        i + 1 < old(neighbors)@.len(),
    ensures
        final(neighbors)@.len() == old(neighbors)@.len(),
        forall|j: int| 0 <= j < old(neighbors)@.len() ==> #[trigger] final(neighbors)@[j] == (NeighborMatrix {
            up: old(neighbors)@[j].up,
            dw: old(neighbors)@[j].dw,
            rg: if j == i { ConnectionType::Connected } else { old(neighbors)@[j].rg },
            lf: if j == i + 1 { ConnectionType::Connected } else { old(neighbors)@[j].lf },
        }),
{
    // The length bounds `i + 1`, so the index below cannot overflow.
    let len: usize = neighbors.len();
    let mut m = neighbors[i];
    m.rg = ConnectionType::Connected;
    neighbors.set(i, m);
    let mut right = neighbors[i + 1];
    right.lf = ConnectionType::Connected;
    neighbors.set(i + 1, right);
}

/// Connects the tile at `(y, x)` with the tiles above and to its right.
fn connect_cell(tiles: &Vec<Option<ConnectionType>>, neighbors: &mut Vec<NeighborMatrix>, n: usize, y: usize, x: usize)
    requires
        tiles@.len() == n * n,
        old(neighbors)@.len() == n * n,
        y < n,
        x < n,
    ensures
        final(neighbors)@.len() == n * n,
        forall|j: int| 0 <= j < n * n ==> #[trigger] final(neighbors)@[j]
            == step_cell(tiles@, n as int, old(neighbors)@[j], j, y as int, x as int),
{
    let total: usize = neighbors.len();
    proof {
        lemma_cell(n as int, y as int, x as int);
        if y + 1 < n {
            lemma_cell(n as int, (y + 1) as int, x as int);
        }
    }
    let ghost t = tiles@;
    let ghost o = neighbors@;
    let i: usize = y * n + x;
    let here: bool = tiles[i] == Some(ConnectionType::Connected);
    let joins_up_here: bool = here && y + 1 < n && tiles[i + n] == Some(ConnectionType::Connected);
    let joins_right_here: bool = here && x + 1 < n && tiles[i + 1] == Some(ConnectionType::Connected);
    assert(joins_up_here == joins_up(t, n as int, y as int, x as int));
    assert(joins_right_here == joins_right(t, n as int, y as int, x as int));
    if joins_up_here {
        mark_up(neighbors, i, n);
    }
    let ghost m = neighbors@;
    assert forall|j: int| 0 <= j < total implies #[trigger] m[j]
        == up_part(t, n as int, o[j], j, y as int, x as int) by {
    }
    if joins_right_here {
        mark_right(neighbors, i);
    }
    assert forall|j: int| 0 <= j < total implies #[trigger] neighbors@[j]
        == step_cell(t, n as int, o[j], j, y as int, x as int) by {
        assert(m[j] == up_part(t, n as int, o[j], j, y as int, x as int));
    }
}

#[verifier::rlimit(40)]
proof fn lemma_step(
    t: Seq<Option<ConnectionType>>,
    n: int,
    start: Seq<NeighborMatrix>,
    prev: Seq<NeighborMatrix>,
    cur: Seq<NeighborMatrix>,
    y: int,
    x: int,
)
    requires
        0 <= y < n,
        0 <= x < n,
        t.len() == n * n,
        start.len() == n * n,
        prev.len() == n * n,
        cur.len() == n * n,
        forall|b: int, a: int|
            #![trigger prev[cell(n, b, a)]]
            0 <= b < n && 0 <= a < n ==> prev[cell(n, b, a)] == matrix_after(t, n, start[cell(n, b, a)], b, a, y, x),
        forall|j: int| 0 <= j < n * n ==> #[trigger] cur[j] == step_cell(t, n, prev[j], j, y, x),
    ensures
        forall|b: int, a: int|
            #![trigger cur[cell(n, b, a)]]
            0 <= b < n && 0 <= a < n ==> cur[cell(n, b, a)] == matrix_after(t, n, start[cell(n, b, a)], b, a, y, x + 1),
{
    assert forall|b: int, a: int|
        #![trigger cur[cell(n, b, a)]]
        0 <= b < n && 0 <= a < n implies cur[cell(n, b, a)] == matrix_after(t, n, start[cell(n, b, a)], b, a, y, x + 1) by {
        let j = cell(n, b, a);
        let i = cell(n, y, x);
        lemma_cell(n, b, a);
        lemma_cell(n, y, x);
        assert(prev[j] == matrix_after(t, n, start[j], b, a, y, x));
        assert(cur[j] == step_cell(t, n, prev[j], j, y, x));
        assert(j == i <==> (b == y && a == x)) by {
            if j == i {
                lemma_cell_injective(n, b, a, y, x);
            }
        }
        if y + 1 < n {
            lemma_cell(n, y + 1, x);
            assert(j == i + n <==> (b == y + 1 && a == x)) by {
                if j == i + n {
                    lemma_cell_injective(n, b, a, y + 1, x);
                }
            }
        }
        if x + 1 < n {
            lemma_cell(n, y, x + 1);
            assert(j == i + 1 <==> (b == y && a == x + 1)) by {
                if j == i + 1 {
                    lemma_cell_injective(n, b, a, y, x + 1);
                }
            }
        }
    }
}

/// Cell `(b, a)` comes before the cell `(py, px)` in row order.
pub open spec fn processed(py: int, px: int, b: int, a: int) -> bool {
    b < py || (b == py && a < px)
}

/// The sides of cell `(b, a)` once the cells before `(py, px)` are connected.
pub open spec fn matrix_after(
    t: Seq<Option<ConnectionType>>,
    n: int,
    before: NeighborMatrix,
    b: int,
    a: int,
    py: int,
    px: int,
) -> NeighborMatrix {
    NeighborMatrix {
        up: if processed(py, px, b, a) && joins_up(t, n, b, a) { ConnectionType::Connected } else { before.up },
        dw: if b > 0 && processed(py, px, b - 1, a) && joins_up(t, n, b - 1, a) { ConnectionType::Connected } else { before.dw },
        rg: if processed(py, px, b, a) && joins_right(t, n, b, a) { ConnectionType::Connected } else { before.rg },
        lf: if a > 0 && processed(py, px, b, a - 1) && joins_right(t, n, b, a - 1) { ConnectionType::Connected } else { before.lf },
    }
}

/// The sides of cell `(y, x)` after connecting: a side is connected when the cell's tile
/// and the tile across that side both connect, and is as before otherwise.
pub open spec fn compiled(t: Seq<Option<ConnectionType>>, n: int, before: NeighborMatrix, y: int, x: int) -> NeighborMatrix {
    NeighborMatrix {
        up: if joins_up(t, n, y, x) { ConnectionType::Connected } else { before.up },
        dw: if y > 0 && joins_up(t, n, y - 1, x) { ConnectionType::Connected } else { before.dw },
        rg: if joins_right(t, n, y, x) { ConnectionType::Connected } else { before.rg },
        lf: if x > 0 && joins_right(t, n, y, x - 1) { ConnectionType::Connected } else { before.lf },
    }
}

/// In a freshly connected chunk, a tile's top side is connected exactly when it and the
/// tile above it both connect, and then the tile above has its bottom side connected;
/// in the same way for right and left sides.
pub proof fn law_connections_are_symmetric(t: Seq<Option<ConnectionType>>, n: int, y: int, x: int)
    requires
        0 <= y < n,
        0 <= x < n,
        t.len() == n * n,
    ensures
        (compiled(t, n, empty_matrix(), y, x).up == ConnectionType::Connected) <==> joins_up(t, n, y, x),
        (compiled(t, n, empty_matrix(), y, x).rg == ConnectionType::Connected) <==> joins_right(t, n, y, x),
        y + 1 < n ==> compiled(t, n, empty_matrix(), y, x).up == compiled(t, n, empty_matrix(), y + 1, x).dw,
        x + 1 < n ==> compiled(t, n, empty_matrix(), y, x).rg == compiled(t, n, empty_matrix(), y, x + 1).lf,
{
}


/// Whether cell `(y, x)` of a chunk of side `n` lies on the chunk's edge at side `dir`.
pub open spec fn on_border(n: int, dir: Direction, y: int, x: int) -> bool {
    match dir {
        Direction::Top => y == n - 1,
        Direction::Bottom => y == 0,
        Direction::Right => x == n - 1,
        Direction::Left => x == 0,
    }
}

/// The cell of the neighbouring chunk that lies across side `dir` of the border cell
/// `(y, x)`: the grids wrap around into each other.
pub open spec fn across(n: int, dir: Direction, y: int, x: int) -> (int, int) {
    match dir {
        Direction::Top => (0, x),
        Direction::Bottom => (n - 1, x),
        Direction::Right => (y, 0),
        Direction::Left => (y, n - 1),
    }
}

/// How the border cell `(y, x)` of a chunk with tiles `t` connects across side `dir` to
/// the chunk with tiles `u`: connected when both tiles connect.
pub open spec fn border_joint(
    t: Seq<Option<ConnectionType>>,
    u: Seq<Option<ConnectionType>>,
    n: int,
    dir: Direction,
    y: int,
    x: int,
) -> ConnectionType {
    let (ny, nx) = across(n, dir, y, x);
    if connects(t, cell(n, y, x)) && connects(u, cell(n, ny, nx)) {
        ConnectionType::Connected
    } else {
        ConnectionType::Isolated
    }
}

/// Position of the border cell `(y, x)` along the edge at side `dir`.
pub open spec fn along(dir: Direction, y: int, x: int) -> int {
    match dir {
        Direction::Top | Direction::Bottom => x,
        Direction::Left | Direction::Right => y,
    }
}

/// The border cell at position `k` along the edge at side `dir`.
pub open spec fn border_cell(n: int, dir: Direction, k: int) -> (int, int) {
    match dir {
        Direction::Top => (n - 1, k),
        Direction::Bottom => (0, k),
        Direction::Right => (k, n - 1),
        Direction::Left => (k, 0),
    }
}

/// Sets side `dir` of cell `i` to `ty`.
fn set_side(neighbors: &mut Vec<NeighborMatrix>, i: usize, dir: Direction, ty: ConnectionType)
    requires
        i < old(neighbors)@.len(),
    ensures
        final(neighbors)@ == old(neighbors)@.update(i as int, with_side(old(neighbors)@[i as int], dir, ty)),
{
    let mut m = neighbors[i];
    m.set(dir, ty);
    neighbors.set(i, m);
}

impl RenderChunk {
    /// Connects this chunk with the chunk that adjoins it at side `dir`: every cell on
    /// that edge gets its side `dir` set, and the cell across from it in `neighbor` its
    /// opposite side, to connected when both tiles connect and to isolated otherwise.
    /// Nothing else changes.
    pub fn compile_border(&mut self, neighbor: &mut RenderChunk, dir: Direction)
        requires
            old(self).wf(),
            old(neighbor).wf(),
            old(neighbor).size() == old(self).size(),
            old(self).size() > 0,
        ensures
            final(self).wf(),
            final(neighbor).wf(),
            final(self).size() == old(self).size(),
            final(neighbor).size() == old(neighbor).size(),
            final(self).tiles() == old(self).tiles(),
            final(neighbor).tiles() == old(neighbor).tiles(),
            forall|y: int, x: int|
                #![trigger final(self).neighbors()[cell(old(self).size() as int, y, x)]]
                0 <= y < old(self).size() && 0 <= x < old(self).size() ==>
                final(self).neighbors()[cell(old(self).size() as int, y, x)] == (
                    if on_border(old(self).size() as int, dir, y, x) {
                        with_side(
                            old(self).neighbors()[cell(old(self).size() as int, y, x)],
                            dir,
                            border_joint(old(self).tiles(), old(neighbor).tiles(), old(self).size() as int, dir, y, x),
                        )
                    } else {
                        old(self).neighbors()[cell(old(self).size() as int, y, x)]
                    }),
            forall|y: int, x: int|
                #![trigger final(neighbor).neighbors()[cell(old(self).size() as int, y, x)]]
                0 <= y < old(self).size() && 0 <= x < old(self).size() ==>
                final(neighbor).neighbors()[cell(old(self).size() as int, y, x)] == (
                    if on_border(old(self).size() as int, flipped(dir), y, x) {
                        with_side(
                            old(neighbor).neighbors()[cell(old(self).size() as int, y, x)],
                            flipped(dir),
                            border_joint(
                                old(self).tiles(),
                                old(neighbor).tiles(),
                                old(self).size() as int,
                                dir,
                                across(old(self).size() as int, flipped(dir), y, x).0,
                                across(old(self).size() as int, flipped(dir), y, x).1,
                            ),
                        )
                    } else {
                        old(neighbor).neighbors()[cell(old(self).size() as int, y, x)]
                    }),
    {
        let n: usize = self.size;
        let ghost ni = n as int;
        let ghost t = self.tile@;
        let ghost u = neighbor.tile@;
        let ghost s0 = self.tile_neighbor@;
        let ghost m0 = neighbor.tile_neighbor@;
        let back = dir.flip();
        let total: usize = self.tile_neighbor.len();
        let mut k: usize = 0;
        while k < n
            invariant
                n == self.size,
                n == neighbor.size,
                ni == n,
                n * n == total,
                n > 0,
                k <= n,
                self.tile@ == t,
                neighbor.tile@ == u,
                t.len() == n * n,
                u.len() == n * n,
                self.tile_neighbor@.len() == n * n,
                neighbor.tile_neighbor@.len() == n * n,
                s0.len() == n * n,
                m0.len() == n * n,
                back == flipped(dir),
                forall|b: int, a: int|
                    #![trigger self.tile_neighbor@[cell(ni, b, a)]]
                    0 <= b < n && 0 <= a < n ==> self.tile_neighbor@[cell(ni, b, a)]
                        == edge_after(t, u, ni, dir, dir, s0[cell(ni, b, a)], b, a, k as int),
                forall|b: int, a: int|
                    #![trigger neighbor.tile_neighbor@[cell(ni, b, a)]]
                    0 <= b < n && 0 <= a < n ==> neighbor.tile_neighbor@[cell(ni, b, a)]
                        == edge_after(t, u, ni, dir, back, m0[cell(ni, b, a)], b, a, k as int),
            decreases n - k,
        {
            let last: usize = n - 1;
            let (y, x, ny, nx) = match dir {
                Direction::Top => (last, k, 0, k),
                Direction::Bottom => (0, k, last, k),
                Direction::Right => (k, last, k, 0),
                Direction::Left => (k, 0, k, last),
            };
            proof {
                lemma_cell(ni, y as int, x as int);
                lemma_cell(ni, ny as int, nx as int);
            }
            let i: usize = y * n + x;
            let j: usize = ny * n + nx;
            let ty = if self.tile[i] == Some(ConnectionType::Connected)
                && neighbor.tile[j] == Some(ConnectionType::Connected) {
                ConnectionType::Connected
            } else {
                ConnectionType::Isolated
            };
            assert(ty == border_joint(t, u, ni, dir, y as int, x as int));
            let ghost prev_s = self.tile_neighbor@;
            let ghost prev_m = neighbor.tile_neighbor@;
            set_side(&mut self.tile_neighbor, i, dir, ty);
            set_side(&mut neighbor.tile_neighbor, j, back, ty);
            proof {
                lemma_edge_step(t, u, ni, dir, dir, s0, prev_s, self.tile_neighbor@, k as int, y as int, x as int, ty);
                lemma_edge_step(t, u, ni, dir, back, m0, prev_m, neighbor.tile_neighbor@, k as int, ny as int, nx as int, ty);
            }
            k = k + 1;
        }
        proof {
            assert forall|b: int, a: int|
                0 <= b < n && 0 <= a < n && on_border(ni, dir, b, a) implies along(dir, b, a) < n by {}
            assert forall|b: int, a: int|
                0 <= b < n && 0 <= a < n && on_border(ni, back, b, a) implies along(back, b, a) < n by {}
        }
    }
}

/// Side `side_dir` of cell `(b, a)`, starting from `before`, once the first `k` cells of
/// the shared edge are connected: `side_dir` is `dir` for the chunk whose edge `dir` is
/// joined, and the opposite side for the chunk across.
pub open spec fn edge_after(
    t: Seq<Option<ConnectionType>>,
    u: Seq<Option<ConnectionType>>,
    n: int,
    dir: Direction,
    side_dir: Direction,
    before: NeighborMatrix,
    b: int,
    a: int,
    k: int,
) -> NeighborMatrix {
    if on_border(n, side_dir, b, a) && along(side_dir, b, a) < k {
        let (sy, sx) = if side_dir == dir { (b, a) } else { across(n, side_dir, b, a) };
        with_side(before, side_dir, border_joint(t, u, n, dir, sy, sx))
    } else {
        before
    }
}

#[verifier::rlimit(30)]
proof fn lemma_edge_step(
    t: Seq<Option<ConnectionType>>,
    u: Seq<Option<ConnectionType>>,
    n: int,
    dir: Direction,
    side_dir: Direction,
    start: Seq<NeighborMatrix>,
    prev: Seq<NeighborMatrix>,
    cur: Seq<NeighborMatrix>,
    k: int,
    y: int,
    x: int,
    ty: ConnectionType,
)
    requires
        0 <= k < n,
        side_dir == dir || side_dir == flipped(dir),
        (y, x) == (if side_dir == dir { border_cell(n, dir, k) } else { across(n, dir, border_cell(n, dir, k).0, border_cell(n, dir, k).1) }),
        ty == border_joint(t, u, n, dir, border_cell(n, dir, k).0, border_cell(n, dir, k).1),
        start.len() == n * n,
        prev.len() == n * n,
        forall|b: int, a: int|
            #![trigger prev[cell(n, b, a)]]
            0 <= b < n && 0 <= a < n ==> prev[cell(n, b, a)] == edge_after(t, u, n, dir, side_dir, start[cell(n, b, a)], b, a, k),
        0 <= cell(n, y, x) < n * n,
        cur == prev.update(cell(n, y, x), with_side(prev[cell(n, y, x)], side_dir, ty)),
    ensures
        forall|b: int, a: int|
            #![trigger cur[cell(n, b, a)]]
            0 <= b < n && 0 <= a < n ==> cur[cell(n, b, a)] == edge_after(t, u, n, dir, side_dir, start[cell(n, b, a)], b, a, k + 1),
{
    assert forall|b: int, a: int|
        #![trigger cur[cell(n, b, a)]]
        0 <= b < n && 0 <= a < n implies cur[cell(n, b, a)] == edge_after(t, u, n, dir, side_dir, start[cell(n, b, a)], b, a, k + 1) by {
        lemma_cell(n, b, a);
        if cell(n, b, a) == cell(n, y, x) {
            lemma_cell_injective(n, b, a, y, x);
        }
    }
}

/// How many rows side `dir` lies above a cell: up is the next row.
pub open spec fn row_step(dir: Direction) -> int {
    match dir {
        Direction::Top => 1,
        Direction::Bottom => -1,
        _ => 0,
    }
}

/// How many columns side `dir` lies to the right of a cell.
pub open spec fn column_step(dir: Direction) -> int {
    match dir {
        Direction::Right => 1,
        Direction::Left => -1,
        _ => 0,
    }
}

/// After connecting, a side of a fresh cell is connected exactly when its own tile and
/// the tile in the next cell that way both connect: up is the next row, right the next
/// column, and a side at the chunk's edge stays isolated.
pub proof fn law_sides_name_the_adjoining_tile(t: Seq<Option<ConnectionType>>, n: int, y: int, x: int)
    requires
        0 <= y < n,
        0 <= x < n,
        t.len() == n * n,
    ensures
        (compiled(t, n, empty_matrix(), y, x).up == ConnectionType::Connected) <==> (y + 1 < n
            && t[y * n + x] == Some(ConnectionType::Connected) && t[(y + 1) * n + x] == Some(ConnectionType::Connected)),
        (compiled(t, n, empty_matrix(), y, x).dw == ConnectionType::Connected) <==> (y > 0
            && t[y * n + x] == Some(ConnectionType::Connected) && t[(y - 1) * n + x] == Some(ConnectionType::Connected)),
        (compiled(t, n, empty_matrix(), y, x).rg == ConnectionType::Connected) <==> (x + 1 < n
            && t[y * n + x] == Some(ConnectionType::Connected) && t[y * n + x + 1] == Some(ConnectionType::Connected)),
        (compiled(t, n, empty_matrix(), y, x).lf == ConnectionType::Connected) <==> (x > 0
            && t[y * n + x] == Some(ConnectionType::Connected) && t[y * n + x - 1] == Some(ConnectionType::Connected)),
{
    assert((y - 1) * n + x + n == y * n + x) by (nonlinear_arith);
}

/// The cell across side `dir` of a border cell is one step in that direction, wrapped
/// into the adjoining chunk: it keeps its row across a left or right edge and its column
/// across a top or bottom edge, lies on the neighbour's opposite edge at the same position
/// along it, and the step back across that edge returns to the cell.
pub proof fn law_across_is_one_wrapped_step(n: int, dir: Direction, y: int, x: int)
    requires
        0 <= y < n,
        0 <= x < n,
        on_border(n, dir, y, x),
    ensures
        across(n, dir, y, x) == ((y + row_step(dir)) % n, (x + column_step(dir)) % n),
        on_border(n, flipped(dir), across(n, dir, y, x).0, across(n, dir, y, x).1),
        along(flipped(dir), across(n, dir, y, x).0, across(n, dir, y, x).1) == along(dir, y, x),
        across(n, flipped(dir), across(n, dir, y, x).0, across(n, dir, y, x).1) == (y, x),
{
    assert(y % n == y) by (nonlinear_arith)
        requires
            0 <= y < n,
    ;
    assert(x % n == x) by (nonlinear_arith)
        requires
            0 <= x < n,
    ;
    assert((n - 1 + 1) % n == 0) by (nonlinear_arith)
        requires
            n > 0,
    ;
    assert((0 - 1) % n == n - 1) by (nonlinear_arith)
        requires
            n > 0,
    ;
}

/// After two adjoining chunks are connected at their shared edge, each border cell of the
/// one and the cell across from it in the other agree on the side they share, and it is
/// connected exactly when both tiles connect.
pub proof fn law_border_is_symmetric(
    t: Seq<Option<ConnectionType>>,
    u: Seq<Option<ConnectionType>>,
    n: int,
    dir: Direction,
    k: int,
)
    requires
        0 <= k < n,
        t.len() == n * n,
        u.len() == n * n,
    ensures
        on_border(n, dir, border_cell(n, dir, k).0, border_cell(n, dir, k).1),
        on_border(n, flipped(dir), across(n, dir, border_cell(n, dir, k).0, border_cell(n, dir, k).1).0,
            across(n, dir, border_cell(n, dir, k).0, border_cell(n, dir, k).1).1),
        across(n, flipped(dir), across(n, dir, border_cell(n, dir, k).0, border_cell(n, dir, k).1).0,
            across(n, dir, border_cell(n, dir, k).0, border_cell(n, dir, k).1).1) == border_cell(n, dir, k),
        (border_joint(t, u, n, dir, border_cell(n, dir, k).0, border_cell(n, dir, k).1) == ConnectionType::Connected) <==> (
            connects(t, cell(n, border_cell(n, dir, k).0, border_cell(n, dir, k).1))
            && connects(u, cell(n, across(n, dir, border_cell(n, dir, k).0, border_cell(n, dir, k).1).0,
                across(n, dir, border_cell(n, dir, k).0, border_cell(n, dir, k).1).1))),
{
}

} // verus!
