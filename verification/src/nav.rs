//! Top-down path finding on the tile grid.
//!
//! A path is a sequence of cells, each reached from the one before by a step to
//! one of the eight neighbouring cells.  The target of every step must be
//! walkable, and a diagonal step also needs both orthogonal cells it passes
//! between to be walkable, so paths never cut across a blocked corner.
use vstd::prelude::*;

verus! {

/// A rectangular grid of cells, each either blocked or free.
pub struct NavGrid {
    pub width: usize,
    pub height: usize,
    /// Row-major: the cell `(x, y)` is at index `y * width + x`.
    pub blocked: Vec<bool>,
}

/// A cell position, as used by the search.
pub type Cell = (int, int);

impl NavGrid {
    /// The dimensions fit the coordinate type and the cell array matches them.
    pub open spec fn wf(&self) -> bool {
        &&& self.width <= i32::MAX
        &&& self.height <= i32::MAX
        &&& self.width * self.height <= usize::MAX
        &&& self.blocked@.len() == self.width * self.height
    }

    pub open spec fn in_bounds(&self, x: int, y: int) -> bool {
        0 <= x < self.width && 0 <= y < self.height
    }

    /// The cell stored at index `i`.
    #[verifier::opaque]
    pub open spec fn pos_of(&self, i: int) -> Cell {
        (i % self.width as int, i / self.width as int)
    }

    pub open spec fn index_of(&self, x: int, y: int) -> int {
        y * self.width + x
    }

    /// Inside the grid and not blocked.
    pub open spec fn walkable(&self, x: int, y: int) -> bool {
        self.in_bounds(x, y) && !self.blocked@[self.index_of(x, y)]
    }

    /// One move from `a` to `b`: to one of the eight neighbours, onto a walkable
    /// cell, and for a diagonal move only when both cells it passes between are
    /// walkable too.
    pub open spec fn legal_step(&self, a: Cell, b: Cell) -> bool {
        let dx = b.0 - a.0;
        let dy = b.1 - a.1;
        &&& -1 <= dx <= 1
        &&& -1 <= dy <= 1
        &&& (dx != 0 || dy != 0)
        &&& self.walkable(b.0, b.1)
        &&& (dx != 0 && dy != 0 ==> self.walkable(a.0 + dx, a.1) && self.walkable(a.0, a.1 + dy))
    }

    /// `cells` are the successive moves of a walk that begins at `start`.
    pub open spec fn is_walk(&self, start: Cell, cells: Seq<Cell>) -> bool {
        forall|i: int|
            0 <= i < cells.len() ==> #[trigger] self.legal_step(prev_cell(start, cells, i), cells[i])
    }

    /// `cells` is a walk from `start` that ends at `goal` (no moves at all when
    /// `start == goal`).
    pub open spec fn walk_reaches(&self, start: Cell, goal: Cell, cells: Seq<Cell>) -> bool {
        &&& self.is_walk(start, cells)
        &&& if cells.len() == 0 {
            start == goal
        } else {
            cells.last() == goal
        }
    }

    /// Some walk leads from `start` to `goal`.
    pub open spec fn reachable(&self, start: Cell, goal: Cell) -> bool {
        exists|cells: Seq<Cell>| self.walk_reaches(start, goal, cells)
    }
}

/// The cell a walk stands on before its `i`-th move.
pub open spec fn prev_cell(start: Cell, cells: Seq<Cell>, i: int) -> Cell {
    if i == 0 {
        start
    } else {
        cells[i - 1]
    }
}

/// Converts the cells of a found path to `i32` coordinates.
pub open spec fn cells_view(v: Seq<(i32, i32)>) -> Seq<Cell> {
    v.map_values(|c: (i32, i32)| (c.0 as int, c.1 as int))
}

/// Builds a grid from a tile buffer: a cell is blocked when its tile id is one of
/// `blocking_ids`; cells past the end of `tiles` hold no tile and are free.
/// `None` when the dimensions do not fit `i32` coordinates or the cell count
/// does not fit `usize`.
pub fn nav_grid_from_tiles(width: usize, height: usize, tiles: &Vec<u8>, blocking_ids: &Vec<u8>) -> (r:
    Option<NavGrid>)
    ensures
        r is None <==> (width > i32::MAX || height > i32::MAX || width * height > usize::MAX),
        r matches Some(g) ==> {
            &&& g.wf()
            &&& g.width == width
            &&& g.height == height
            &&& forall|i: int|
                0 <= i < width * height ==> #[trigger] g.blocked@[i] == (i < tiles@.len()
                    && blocking_ids@.contains(tiles@[i]))
        },
{
    if width > 0x7fff_ffffusize || height > 0x7fff_ffffusize {
        return None;
    }
    let total: usize = match width.checked_mul(height) {
        Some(t) => t,
        None => {
            return None;
        },
    };
    let mut blocked: Vec<bool> = Vec::new();
    let mut i: usize = 0;
    while i < total
        invariant
            i <= total,
            total == width * height,
            blocked@.len() == i,
            forall|j: int|
                0 <= j < i ==> #[trigger] blocked@[j] == (j < tiles@.len() && blocking_ids@.contains(
                    tiles@[j],
                )),
        decreases total - i,
    {
        let mut b = false;
        if i < tiles.len() {
            let t = tiles[i];
            let mut k: usize = 0;
            while k < blocking_ids.len()
                invariant
                    k <= blocking_ids.len(),
                    b == (exists|m: int| 0 <= m < k && blocking_ids@[m] == t),
                decreases blocking_ids.len() - k,
            {
                if blocking_ids[k] == t {
                    b = true;
                }
                k += 1;
            }
            assert(b == blocking_ids@.contains(t));
        }
        blocked.push(b);
        i += 1;
    }
    Some(NavGrid { width, height, blocked })
}

/// The tile that blocks sight: solid.
pub const SOLID_TILE: u8 = 1;

/// The hazard tile that top-down movement avoids: spikes.
pub const SPIKE_TILE: u8 = 2;

/// A tile blocks top-down movement: it is solid or spikes.
pub open spec fn blocks_movement(t: u8) -> bool {
    t == SOLID_TILE || t == SPIKE_TILE
}

/// A tile blocks sight: it is solid.
pub open spec fn blocks_sight(t: u8) -> bool {
    t == SOLID_TILE
}

/// The grid of a tile map for top-down path finding: solid and spike tiles
/// are blocked. `None` when the dimensions are too large (see
/// `nav_grid_from_tiles`).
pub fn top_down_grid(width: usize, height: usize, tiles: &Vec<u8>) -> (r: Option<NavGrid>)
    ensures
        r is None <==> (width > i32::MAX || height > i32::MAX || width * height > usize::MAX),
        r matches Some(g) ==> {
            &&& g.wf()
            &&& g.width == width
            &&& g.height == height
            &&& forall|i: int|
                0 <= i < width * height ==> #[trigger] g.blocked@[i] == (i < tiles@.len() && blocks_movement(tiles@[i]))
        },
{
    let mut ids: Vec<u8> = Vec::new();
    ids.push(SOLID_TILE);
    ids.push(SPIKE_TILE);
    assert forall|t: u8| ids@.contains(t) <==> blocks_movement(t) by {
        if t == SPIKE_TILE {
            assert(ids@[1] == t);
        }
        if t == SOLID_TILE {
            assert(ids@[0] == t);
        }
    }
    nav_grid_from_tiles(width, height, tiles, &ids)
}

/// The grid of a tile map for line-of-sight tests: solid tiles are blocked.
pub fn sight_grid(width: usize, height: usize, tiles: &Vec<u8>) -> (r: Option<NavGrid>)
    ensures
        r is None <==> (width > i32::MAX || height > i32::MAX || width * height > usize::MAX),
        r matches Some(g) ==> {
            &&& g.wf()
            &&& g.width == width
            &&& g.height == height
            &&& forall|i: int|
                0 <= i < width * height ==> #[trigger] g.blocked@[i] == (i < tiles@.len() && blocks_sight(tiles@[i]))
        },
{
    let mut ids: Vec<u8> = Vec::new();
    ids.push(SOLID_TILE);
    assert forall|t: u8| ids@.contains(t) <==> blocks_sight(t) by {
        if t == SOLID_TILE {
            assert(ids@[0] == t);
        }
    }
    nav_grid_from_tiles(width, height, tiles, &ids)
}

/// Whether the cell `(tx, ty)` lies inside the grid and is not blocked.
pub fn cell_walkable(grid: &NavGrid, tx: i64, ty: i64) -> (r: bool)
    requires
        grid.wf(),
    ensures
        r == grid.walkable(tx as int, ty as int),
{
    if tx < 0 || ty < 0 || tx >= grid.width as i64 || ty >= grid.height as i64 {
        return false;
    }
    let x = tx as usize;
    let y = ty as usize;
    proof {
        lemma_index_bound(grid.width as int, grid.height as int, x as int, y as int);
    }
    let idx = y * grid.width + x;
    !grid.blocked[idx]
}

/// Search state of the breadth-first search.
struct Search {
    /// One flag per cell: the cell has been reached.
    visited: Vec<bool>,
    /// Index of the cell a reached cell was first reached from; the cell count
    /// stands for the start.
    parent: Vec<usize>,
    /// Position of a reached cell in `queue`.
    order: Vec<usize>,
    /// Cells in the order they were reached; `queue[0]` is the start.
    queue: Vec<(i64, i64)>,
    /// For each queue position, the number of moves of the recorded route
    /// from the start to that cell.
    depth: Ghost<Seq<int>>,
}

/// Both coordinates fit in `i32`.
pub open spec fn coord_ok(c: (i64, i64)) -> bool {
    -0x8000_0000 <= c.0 <= 0x7fff_ffff && -0x8000_0000 <= c.1 <= 0x7fff_ffff
}

pub open spec fn cell_of(c: (i64, i64)) -> Cell {
    (c.0 as int, c.1 as int)
}

impl Search {
    spec fn is_visited(&self, g: &NavGrid, c: Cell) -> bool {
        g.in_bounds(c.0, c.1) && self.visited@[g.index_of(c.0, c.1)]
    }

    /// Every legal step out of `c` lands on a reached cell.
    spec fn closed_at(&self, g: &NavGrid, c: Cell) -> bool {
        forall|t: Cell| #[trigger] g.legal_step(c, t) ==> self.is_visited(g, t)
    }

    spec fn inv(&self, g: &NavGrid, start: Cell, done: int) -> bool {
        let n = g.width * g.height;
        &&& g.wf()
        &&& self.visited@.len() == n
        &&& self.parent@.len() == n
        &&& self.order@.len() == n
        &&& 1 <= self.queue@.len() <= n + 1
        &&& 0 <= done <= self.queue@.len()
        &&& cell_of(self.queue@[0]) == start
        &&& (g.in_bounds(start.0, start.1) ==> self.visited@[g.index_of(start.0, start.1)])
        &&& forall|k: int|
            0 < k < self.queue@.len() ==> g.in_bounds(
                #[trigger] self.queue@[k].0 as int,
                self.queue@[k].1 as int,
            ) && self.visited@[g.index_of(self.queue@[k].0 as int, self.queue@[k].1 as int)]
                && self.order@[g.index_of(self.queue@[k].0 as int, self.queue@[k].1 as int)] == k
        &&& forall|k: int| 0 <= k < done ==> self.closed_at(g, cell_of(#[trigger] self.queue@[k]))
        &&& forall|i: int|
            0 <= i < n && #[trigger] self.visited@[i] ==> {
                let c = g.pos_of(i);
                &&& self.order@[i] < self.queue@.len()
                &&& cell_of(self.queue@[self.order@[i] as int]) == c
                &&& (self.order@[i] == 0 <==> c == start)
                &&& (self.order@[i] > 0 ==> self.parent_ok(g, start, i))
            }
    }

    /// Every reached cell other than the start has a valid recorded parent.
    spec fn chain_ok(&self, g: &NavGrid, start: Cell) -> bool {
        let n = g.width * g.height;
        &&& g.wf()
        &&& self.visited@.len() == n
        &&& self.parent@.len() == n
        &&& self.order@.len() == n
        &&& forall|i: int|
            0 <= i < n && #[trigger] self.visited@[i] && self.order@[i] > 0 ==> self.parent_ok(
                g,
                start,
                i,
            )
    }

    /// The recorded parent of a reached non-start cell is a reached cell reached
    /// earlier (or the start), with a legal step from it to the cell.
    spec fn parent_ok(&self, g: &NavGrid, start: Cell, i: int) -> bool {
        let n = g.width * g.height;
        let c = g.pos_of(i);
        let p = self.parent@[i] as int;
        if p == n {
            g.legal_step(start, c)
        } else {
            &&& 0 <= p < n
            &&& self.visited@[p]
            &&& 0 < self.order@[p] < self.order@[i]
            &&& g.legal_step(g.pos_of(p), c)
        }
    }
}

impl Search {
    /// The recorded depth of a reached cell.
    spec fn depth_of(&self, g: &NavGrid, c: Cell) -> int {
        self.depth@[self.order@[g.index_of(c.0, c.1)] as int]
    }

    /// Every legal step out of `c` lands on a reached cell at most one move
    /// deeper than `dc`.
    spec fn closed_depth(&self, g: &NavGrid, c: Cell, dc: int) -> bool {
        forall|t: Cell| #[trigger] g.legal_step(c, t) ==> self.is_visited(g, t) && self.depth_of(g, t) <= dc + 1
    }

    /// The depths grow along the queue by at most one level beyond the cell
    /// being processed, the processed cells are closed with depths, and every
    /// reached cell is one move deeper than its recorded parent.
    spec fn depth_inv(&self, g: &NavGrid, done: int) -> bool {
        let n = g.width * g.height;
        let q = self.queue@;
        let d = self.depth@;
        &&& d.len() == q.len()
        &&& d[0] == 0
        &&& forall|a: int, b: int| 0 <= a < b < q.len() ==> #[trigger] d[a] <= #[trigger] d[b]
        &&& (done < q.len() ==> forall|b: int| 0 <= b < q.len() ==> #[trigger] d[b] <= d[done] + 1)
        &&& forall|k: int| 0 <= k < done ==> self.closed_depth(g, cell_of(#[trigger] q[k]), d[k])
        &&& self.depth_parents(g)
    }

    /// Every reached cell other than the start is one move deeper than its
    /// recorded parent (the start has depth 0).
    spec fn depth_parents(&self, g: &NavGrid) -> bool {
        let n = g.width * g.height;
        let d = self.depth@;
        forall|i: int|
            0 <= i < n && #[trigger] self.visited@[i] && self.order@[i] > 0 ==> d[self.order@[i] as int] == (
            if self.parent@[i] == n {
                1
            } else {
                d[self.order@[self.parent@[i] as int] as int] + 1
            })
    }
}

proof fn lemma_index_bound(w: int, h: int, x: int, y: int)
    requires
        0 <= x < w,
        0 <= y < h,
    ensures
        0 <= y * w + x < w * h,
{
    assert(y * w + x < (y + 1) * w) by (nonlinear_arith)
        requires
            x < w,
    ;
    assert((y + 1) * w <= h * w) by (nonlinear_arith)
        requires
            y + 1 <= h,
            w >= 0,
    ;
    assert(h * w == w * h) by (nonlinear_arith);
    assert(0 <= y * w) by (nonlinear_arith)
        requires
            y >= 0,
            w >= 0,
    ;
}

proof fn lemma_index_cell(g: &NavGrid, x: int, y: int)
    requires
        g.wf(),
        g.in_bounds(x, y),
    ensures
        0 <= g.index_of(x, y) < g.width * g.height,
        g.pos_of(g.index_of(x, y)) == (x, y),
{
    reveal(NavGrid::pos_of);
    lemma_index_bound(g.width as int, g.height as int, x, y);
    vstd::arithmetic::div_mod::lemma_fundamental_div_mod_converse(
        g.index_of(x, y),
        g.width as int,
        y,
        x,
    );
}

proof fn lemma_cell_index(g: &NavGrid, i: int)
    requires
        g.wf(),
        0 <= i < g.width * g.height,
    ensures
        g.width > 0,
        g.in_bounds(g.pos_of(i).0, g.pos_of(i).1),
        g.index_of(g.pos_of(i).0, g.pos_of(i).1) == i,
{
    reveal(NavGrid::pos_of);
    let w = g.width as int;
    let h = g.height as int;
    if w == 0 {
        assert(w * h == 0) by (nonlinear_arith)
            requires
                w == 0,
        ;
    }
    vstd::arithmetic::div_mod::lemma_fundamental_div_mod(i, w);
    let q = i / w;
    let r = i % w;
    assert(0 <= r < w);
    assert(q >= 0) by (nonlinear_arith)
        requires
            i == w * q + r,
            0 <= r < w,
            i >= 0,
    ;
    assert(q < h) by (nonlinear_arith)
        requires
            i == w * q + r,
            0 <= r,
            i < w * h,
            w > 0,
    ;
    assert(w * q == q * w) by (nonlinear_arith);
}

proof fn lemma_closed_mono(g: &NavGrid, a: &Search, b: &Search, c: Cell)
    requires
        a.visited@.len() == b.visited@.len(),
        forall|i: int| 0 <= i < a.visited@.len() && #[trigger] a.visited@[i] ==> b.visited@[i],
        g.wf(),
        a.visited@.len() == g.width * g.height,
        a.closed_at(g, c),
    ensures
        b.closed_at(g, c),
{
    assert forall|t: Cell| #[trigger] g.legal_step(c, t) implies b.is_visited(g, t) by {
        lemma_index_cell(g, t.0, t.1);
        assert(a.is_visited(g, t));
    }
}

/// Looks at the neighbour of `queue[k]` at offset `(dx, dy)`; reaches it when the
/// step is legal and it was not reached before.  Returns whether it is `goal`.
fn try_step(g: &NavGrid, s: &mut Search, start: Ghost<Cell>, goal: (i64, i64), k: usize, dx: i64, dy: i64) -> (found: bool)
    requires
        old(s).inv(g, start@, k as int),
        old(s).depth_inv(g, k as int),
        k < old(s).queue@.len(),
        -1 <= dx <= 1,
        -1 <= dy <= 1,
        dx != 0 || dy != 0,
        coord_ok(old(s).queue@[k as int]),
        cell_of(goal) != start@,
        !old(s).is_visited(g, cell_of(goal)),
    ensures
        final(s).inv(g, start@, k as int),
        final(s).depth_inv(g, k as int),
        forall|j: int| 0 <= j < old(s).queue@.len() ==> final(s).depth@[j] == old(s).depth@[j],
        ({
            let c = cell_of(old(s).queue@[k as int]);
            let t = (c.0 + dx, c.1 + dy);
            g.legal_step(c, t) ==> final(s).depth_of(g, t) <= old(s).depth@[k as int] + 1
        }),
        found ==> final(s).depth_of(g, cell_of(goal)) == old(s).depth@[k as int] + 1,
        forall|u: Cell| #[trigger] old(s).is_visited(g, u) ==> final(s).depth_of(g, u) == old(s).depth_of(g, u),
        final(s).queue@.len() >= old(s).queue@.len(),
        forall|j: int| 0 <= j < old(s).queue@.len() ==> final(s).queue@[j] == old(s).queue@[j],
        forall|i: int|
            0 <= i < old(s).visited@.len() && #[trigger] old(s).visited@[i] ==> final(s).visited@[i],
        found == final(s).is_visited(g, cell_of(goal)),
        ({
            let c = cell_of(old(s).queue@[k as int]);
            let t = (c.0 + dx, c.1 + dy);
            g.legal_step(c, t) ==> final(s).is_visited(g, t)
        }),
        forall|j: int|
            old(s).queue@.len() <= j < final(s).queue@.len() ==> coord_ok(#[trigger] final(s).queue@[j]),
{
    let (x, y) = s.queue[k];
    let nx = x + dx;
    let ny = y + dy;
    let ghost c = cell_of((x, y));
    let ghost t = (nx as int, ny as int);
    if dx != 0 && dy != 0 {
        let can_h = cell_walkable(g, x + dx, y);
        let can_v = cell_walkable(g, x, y + dy);
        if !can_h || !can_v {
            assert(!g.legal_step(c, t));
            return false;
        }
    }
    if !cell_walkable(g, nx, ny) {
        assert(!g.legal_step(c, t));
        return false;
    }
    proof {
        lemma_index_cell(g, t.0, t.1);
    }
    let n = g.width * g.height;
    let idx = (ny as usize) * g.width + (nx as usize);
    assert(idx as int == g.index_of(t.0, t.1));
    if s.visited[idx] {
        proof {
            assert(s.order@[idx as int] < s.queue@.len());
            assert(s.depth@[s.order@[idx as int] as int] <= s.depth@[k as int] + 1);
        }
        return false;
    }
    let ghost old_s = *s;
    assert(g.legal_step(c, t));
    // the new cell is not yet in the queue, so the queue has room
    assert(s.queue@.len() <= n) by {
        // every queue entry after the first is a distinct reached cell
        lemma_queue_room(g, &*s, start@, k as int, idx as int);
    }
    let pos = s.queue.len();
    let par = if k == 0 {
        n
    } else {
        proof {
            lemma_index_cell(g, c.0, c.1);
        }
        (y as usize) * g.width + (x as usize)
    };
    s.visited.set(idx, true);
    s.parent.set(idx, par);
    s.order.set(idx, pos);
    s.queue.push((nx, ny));
    proof {
        s.depth@ = s.depth@.push(old_s.depth@[k as int] + 1);
    }
    proof {
        if k != 0 {
            lemma_index_cell(g, c.0, c.1);
        }
        lemma_insert_preserves(g, &old_s, &*s, start@, k as int, t, idx as int, par as int);
        lemma_insert_depth(g, &old_s, &*s, start@, k as int, t, idx as int, par as int);
        assert forall|u: Cell| #[trigger] old_s.is_visited(g, u) implies s.depth_of(g, u) == old_s.depth_of(g, u) by {
            lemma_index_cell(g, u.0, u.1);
            let iu = g.index_of(u.0, u.1);
            assert(old_s.visited@[iu]);
            assert(old_s.order@[iu] < old_s.queue@.len());
        }
        if cell_of(goal) != t && g.in_bounds(goal.0 as int, goal.1 as int) {
            lemma_index_cell(g, goal.0 as int, goal.1 as int);
            lemma_index_cell(g, t.0, t.1);
            lemma_cell_index(g, idx as int);
            lemma_cell_index(g, g.index_of(goal.0 as int, goal.1 as int));
        }
    }
    nx == goal.0 && ny == goal.1
}


/// Reaching one more cell keeps the search invariant.
#[verifier::rlimit(50)]
proof fn lemma_insert_preserves(g: &NavGrid, a: &Search, b: &Search, start: Cell, k: int, t: Cell, idx: int, par: int)
    requires
        a.inv(g, start, k),
        0 <= k < a.queue@.len(),
        a.queue@.len() <= g.width * g.height,
        g.legal_step(cell_of(a.queue@[k]), t),
        idx == g.index_of(t.0, t.1),
        !a.visited@[idx],
        par == (if k == 0 {
            g.width * g.height
        } else {
            g.index_of(a.queue@[k].0 as int, a.queue@[k].1 as int)
        }),
        b.visited@ == a.visited@.update(idx, true),
        b.parent@ == a.parent@.update(idx, par as usize),
        b.order@ == a.order@.update(idx, a.queue@.len() as usize),
        b.queue@ == a.queue@.push((t.0 as i64, t.1 as i64)),
    ensures
        b.inv(g, start, k),
{
    let n = g.width * g.height;
    let c = cell_of(a.queue@[k]);
    let pos = a.queue@.len() as int;
    lemma_index_cell(g, t.0, t.1);
    assert forall|j: int| 0 <= j < k implies b.closed_at(g, cell_of(#[trigger] b.queue@[j])) by {
        assert(b.queue@[j] == a.queue@[j]);
        lemma_closed_mono(g, a, b, cell_of(a.queue@[j]));
    }
    assert forall|j: int|
        0 < j < b.queue@.len() implies g.in_bounds(
            #[trigger] b.queue@[j].0 as int,
            b.queue@[j].1 as int,
        ) && b.visited@[g.index_of(b.queue@[j].0 as int, b.queue@[j].1 as int)]
            && b.order@[g.index_of(b.queue@[j].0 as int, b.queue@[j].1 as int)] == j by {
        if j < pos {
            let q = b.queue@[j];
            assert(q == a.queue@[j]);
            lemma_index_cell(g, q.0 as int, q.1 as int);
            assert(a.visited@[g.index_of(q.0 as int, q.1 as int)]);
        }
    }
    assert forall|i: int|
        0 <= i < n && #[trigger] b.visited@[i] implies {
            let cc = g.pos_of(i);
            &&& b.order@[i] < b.queue@.len()
            &&& cell_of(b.queue@[b.order@[i] as int]) == cc
            &&& (b.order@[i] == 0 <==> cc == start)
            &&& (b.order@[i] > 0 ==> b.parent_ok(g, start, i))
        } by {
        lemma_cell_index(g, i);
        if i == idx {
            if t == start {
                assert(a.visited@[idx]);
            }
            if k != 0 {
                lemma_index_cell(g, c.0, c.1);
                assert(a.visited@[par]);
                assert(a.order@[par] == k);
            }
        } else {
            assert(a.visited@[i]);
            if b.order@[i] > 0 {
                let p = a.parent@[i] as int;
                if p != n {
                    assert(a.visited@[p]);
                }
            }
        }
    }
    assert(b.visited@.len() == n);
    assert(b.parent@.len() == n);
    assert(b.order@.len() == n);
    assert(1 <= b.queue@.len() <= n + 1);
    assert(0 <= k <= b.queue@.len());
    assert(cell_of(b.queue@[0]) == start);
    if g.in_bounds(start.0, start.1) {
        lemma_index_cell(g, start.0, start.1);
    }
}

/// Reaching one more cell, one move deeper than the cell being processed,
/// keeps the depth invariant.
#[verifier::rlimit(50)]
proof fn lemma_insert_depth(g: &NavGrid, a: &Search, b: &Search, start: Cell, k: int, t: Cell, idx: int, par: int)
    requires
        a.inv(g, start, k),
        a.depth_inv(g, k),
        0 <= k < a.queue@.len(),
        a.queue@.len() <= g.width * g.height,
        g.legal_step(cell_of(a.queue@[k]), t),
        idx == g.index_of(t.0, t.1),
        0 <= idx < g.width * g.height,
        !a.visited@[idx],
        par == (if k == 0 {
            g.width * g.height
        } else {
            g.index_of(a.queue@[k].0 as int, a.queue@[k].1 as int)
        }),
        b.visited@ == a.visited@.update(idx, true),
        b.parent@ == a.parent@.update(idx, par as usize),
        b.order@ == a.order@.update(idx, a.queue@.len() as usize),
        b.queue@ == a.queue@.push((t.0 as i64, t.1 as i64)),
        b.depth@ == a.depth@.push(a.depth@[k] + 1),
    ensures
        b.depth_inv(g, k),
        b.depth_of(g, t) == a.depth@[k] + 1,
{
    let n = g.width * g.height;
    let pos = a.queue@.len() as int;
    let d = a.depth@;
    let bd = b.depth@;
    assert forall|x: int, y: int| 0 <= x < y < b.queue@.len() implies #[trigger] bd[x] <= #[trigger] bd[y] by {
        if y < pos {
            assert(bd[x] == d[x] && bd[y] == d[y]);
        } else {
            assert(bd[x] == d[x]);
            assert(d[x] <= d[k] + 1);
        }
    }
    assert forall|y: int| 0 <= y < b.queue@.len() implies #[trigger] bd[y] <= bd[k] + 1 by {
        if y < pos {
            assert(bd[y] == d[y]);
        }
    }
    assert forall|j: int| 0 <= j < k implies b.closed_depth(g, cell_of(#[trigger] b.queue@[j]), bd[j]) by {
        assert(b.queue@[j] == a.queue@[j]);
        assert(a.closed_depth(g, cell_of(a.queue@[j]), d[j]));
        assert forall|u: Cell| #[trigger] g.legal_step(cell_of(b.queue@[j]), u) implies b.is_visited(g, u)
            && b.depth_of(g, u) <= bd[j] + 1 by {
            assert(a.is_visited(g, u) && a.depth_of(g, u) <= d[j] + 1);
            lemma_index_cell(g, u.0, u.1);
            let iu = g.index_of(u.0, u.1);
            assert(iu != idx);
            assert(a.order@[iu] < pos);
            assert(b.order@[iu] == a.order@[iu]);
        }
    }
    assert(b.order@[idx] as int == pos);
    assert(b.depth_of(g, t) == bd[pos]);
    assert forall|i: int|
        0 <= i < n && #[trigger] b.visited@[i] && b.order@[i] > 0 implies bd[b.order@[i] as int] == (
        if b.parent@[i] == n {
            1
        } else {
            bd[b.order@[b.parent@[i] as int] as int] + 1
        }) by {
        if i == idx {
            assert(b.order@[idx] as int == pos);
            assert(bd[pos] == d[k] + 1);
            if k != 0 {
                let c = cell_of(a.queue@[k]);
                lemma_index_cell(g, c.0, c.1);
                assert(0 <= par < n);
                assert(b.parent@[idx] as int == par);
                assert(a.visited@[par]);
                assert(a.order@[par] == k);
                assert(par != idx);
                assert(b.order@[par] == k);
                assert(bd[k] == d[k]);
            } else {
                assert(b.parent@[idx] as int == n);
                assert(d[0] == 0);
            }
        } else {
            assert(a.visited@[i]);
            assert(a.order@[i] < pos);
            let p = a.parent@[i] as int;
            if p != n {
                assert(a.parent_ok(g, start, i));
                assert(a.visited@[p]);
                assert(p != idx);
                assert(a.order@[p] < pos);
            }
        }
    }
}

/// While the cell at queue position `k` is processed, every cell of a walk
/// from the start that is fewer moves away than that cell's depth plus one
/// is reached, at a depth no greater than its position on the walk.
proof fn lemma_walk_depth(g: &NavGrid, s: &Search, start: Cell, k: int, cells: Seq<Cell>, i: int)
    requires
        s.inv(g, start, k),
        s.depth_inv(g, k),
        0 <= k < s.queue@.len(),
        g.is_walk(start, cells),
        0 <= i < cells.len(),
        i + 1 <= s.depth@[k],
    ensures
        s.is_visited(g, cells[i]),
        s.depth_of(g, cells[i]) <= i + 1,
    decreases i,
{
    let prev = prev_cell(start, cells, i);
    assert(g.legal_step(prev, cells[i]));
    if i == 0 {
        assert(k > 0);
        assert(s.closed_depth(g, cell_of(s.queue@[0]), s.depth@[0]));
    } else {
        lemma_walk_depth(g, s, start, k, cells, i - 1);
        lemma_index_cell(g, prev.0, prev.1);
        let pi = g.index_of(prev.0, prev.1);
        assert(s.visited@[pi]);
        let o = s.order@[pi] as int;
        assert(cell_of(s.queue@[o]) == prev);
        assert(o < k) by {
            if o > k {
                assert(s.depth@[k] <= s.depth@[o]);
            }
        }
        assert(s.closed_depth(g, cell_of(s.queue@[o]), s.depth@[o]));
    }
}

/// A cell first reached while processing queue position `k` is at least as
/// many moves from the start as any walk to it takes.
proof fn lemma_shortest(g: &NavGrid, s: &Search, start: Cell, goal: Cell, k: int, cells: Seq<Cell>)
    requires
        s.inv(g, start, k),
        s.depth_inv(g, k),
        0 <= k < s.queue@.len(),
        s.is_visited(g, goal),
        s.depth_of(g, goal) == s.depth@[k] + 1,
        goal != start,
        g.walk_reaches(start, goal, cells),
    ensures
        cells.len() >= s.depth@[k] + 1,
{
    if cells.len() <= s.depth@[k] {
        assert(cells.len() > 0);
        lemma_walk_depth(g, s, start, k, cells, cells.len() - 1);
        assert(cells[cells.len() - 1] == goal);
    }
}

/// Once every legal step out of the cell at position `k` is reached at most
/// one move deeper, processing moves on to position `k + 1`.
proof fn lemma_advance_depth(g: &NavGrid, s: &Search, k: int)
    requires
        s.depth_inv(g, k),
        0 <= k < s.queue@.len(),
        s.closed_depth(g, cell_of(s.queue@[k]), s.depth@[k]),
    ensures
        s.depth_inv(g, k + 1),
{
    let d = s.depth@;
    if k + 1 < s.queue@.len() {
        assert forall|b: int| 0 <= b < s.queue@.len() implies #[trigger] d[b] <= d[k + 1] + 1 by {
            assert(d[b] <= d[k] + 1);
            assert(d[k] <= d[k + 1]);
        }
    }
}

/// While `cell` is not yet reached, the queue holds fewer than `n + 1` entries.
proof fn lemma_queue_room(g: &NavGrid, s: &Search, start: Cell, done: int, idx: int)
    requires
        s.inv(g, start, done),
        0 <= idx < g.width * g.height,
        !s.visited@[idx],
    ensures
        s.queue@.len() <= g.width * g.height,
{
    let n = g.width * g.height;
    // map each queue position k >= 1 to its cell index; these are distinct and
    // differ from idx, so there are at most n - 1 of them.
    let f = |k: int| g.index_of(s.queue@[k + 1].0 as int, s.queue@[k + 1].1 as int);
    let m = (s.queue@.len() - 1) as nat;
    let dom = Set::new(|k: int| 0 <= k < m);
    let img = Set::new(|i: int| 0 <= i < n && s.visited@[i]);
    let all = Set::new(|i: int| 0 <= i < n);
    assert(dom =~= vstd::set_lib::set_int_range(0, m as int));
    vstd::set_lib::lemma_int_range(0, m as int);
    assert(all =~= vstd::set_lib::set_int_range(0, n as int));
    vstd::set_lib::lemma_int_range(0, n as int);
    assert forall|a: int, b: int| dom.contains(a) && dom.contains(b) && f(a) == f(b) implies a
        == b by {
        let qa = s.queue@[a + 1];
        let qb = s.queue@[b + 1];
        assert(s.order@[f(a)] == a + 1);
        assert(s.order@[f(b)] == b + 1);
    }
    assert forall|a: int| dom.contains(a) implies img.contains(f(a)) by {
        let q = s.queue@[a + 1];
        lemma_index_cell(g, q.0 as int, q.1 as int);
    }
    assert(vstd::relations::injective_on(f, dom));
    vstd::set_lib::lemma_map_size(dom, dom.map(f), f);
    assert(dom.map(f).subset_of(img)) by {
        assert forall|i: int| dom.map(f).contains(i) implies img.contains(i) by {
            let a = choose|a: int| dom.contains(a) && f(a) == i;
        }
    }
    assert(img.subset_of(all.remove(idx)));
    vstd::set_lib::lemma_len_subset(dom.map(f), img);
    vstd::set_lib::lemma_len_subset(img, all.remove(idx));
}


/// Every cell of a walk from `start` is reached once the whole queue has been
/// processed.
proof fn lemma_walk_visited(g: &NavGrid, s: &Search, start: Cell, cells: Seq<Cell>, i: int)
    requires
        s.inv(g, start, s.queue@.len() as int),
        g.is_walk(start, cells),
        0 <= i < cells.len(),
    ensures
        s.is_visited(g, cells[i]),
    decreases i,
{
    let prev = prev_cell(start, cells, i);
    assert(g.legal_step(prev, cells[i]));
    if i == 0 {
        assert(s.closed_at(g, cell_of(s.queue@[0])));
    } else {
        lemma_walk_visited(g, s, start, cells, i - 1);
        let pi = g.index_of(prev.0, prev.1);
        lemma_index_cell(g, prev.0, prev.1);
        assert(s.visited@[pi]);
        let o = s.order@[pi] as int;
        assert(cell_of(s.queue@[o]) == prev);
        assert(s.closed_at(g, cell_of(s.queue@[o])));
    }
}

/// When the search has processed every reached cell without reaching `goal`,
/// no walk leads there.
proof fn lemma_unreachable(g: &NavGrid, s: &Search, start: Cell, goal: Cell)
    requires
        s.inv(g, start, s.queue@.len() as int),
        !s.is_visited(g, goal),
        start != goal,
    ensures
        !g.reachable(start, goal),
{
    if g.reachable(start, goal) {
        let cells = choose|cells: Seq<Cell>| g.walk_reaches(start, goal, cells);
        assert(cells.len() > 0);
        lemma_walk_visited(g, s, start, cells, cells.len() - 1);
        assert(cells[cells.len() - 1] == goal);
    }
}

/// The cell at offset `o` from `c`.
pub open spec fn offset_target(c: Cell, o: (i64, i64)) -> Cell {
    (c.0 + o.0, c.1 + o.1)
}

/// The cell stored at index `i`, in `i32` coordinates.
fn cell_at(g: &NavGrid, i: usize) -> (c: (i32, i32))
    requires
        g.wf(),
        i < g.width * g.height,
    ensures
        (c.0 as int, c.1 as int) == g.pos_of(i as int),
{
    proof {
        lemma_cell_index(g, i as int);
        reveal(NavGrid::pos_of);
    }
    ((i % g.width) as i32, (i / g.width) as i32)
}

/// An `i32` cell as a search cell.
pub open spec fn cv(c: (i32, i32)) -> Cell {
    (c.0 as int, c.1 as int)
}

/// Follows the recorded parents back from `goal` to the start.
fn build_path(g: &NavGrid, s: &Search, start: Ghost<Cell>, goal: (i32, i32)) -> (path: Vec<(i32, i32)>)
    requires
        s.inv(g, start@, 0),
        s.chain_ok(g, start@),
        s.depth_parents(g),
        s.is_visited(g, cv(goal)),
        cv(goal) != start@,
    ensures
        g.walk_reaches(start@, cv(goal), cells_view(path@)),
        path@.len() == s.depth_of(g, cv(goal)),
{
    let n = g.width * g.height;
    let ghost gc = cv(goal);
    proof {
        lemma_index_cell(g, gc.0, gc.1);
    }
    let mut cur: usize = (goal.1 as usize) * g.width + (goal.0 as usize);
    let mut rev: Vec<(i32, i32)> = Vec::new();
    rev.push(goal);
    let ghost dgoal = s.depth_of(g, gc);
    proof {
        lemma_cell_index(g, cur as int);
        assert(s.order@[cur as int] > 0);
    }
    loop
        invariant_except_break
            0 <= cur < n,
            n == g.width * g.height,
            s.chain_ok(g, start@),
            s.depth_parents(g),
            rev@.len() - 1 + s.depth@[s.order@[cur as int] as int] == dgoal,
            s.visited@[cur as int],
            s.order@[cur as int] > 0,
            rev@.len() >= 1,
            cv(rev@[0]) == gc,
            cv(rev@.last()) == g.pos_of(cur as int),
            forall|j: int|
                0 <= j < rev@.len() - 1 ==> #[trigger] g.legal_step(cv(rev@[j + 1]), cv(rev@[j])),
        ensures
            rev@.len() >= 1,
            rev@.len() == dgoal,
            cv(rev@[0]) == gc,
            g.legal_step(start@, cv(rev@.last())),
            forall|j: int|
                0 <= j < rev@.len() - 1 ==> #[trigger] g.legal_step(cv(rev@[j + 1]), cv(rev@[j])),
        decreases s.order@[cur as int],
    {
        let p = s.parent[cur];
        assert(s.parent_ok(g, start@, cur as int));
        if p == n {
            break;
        }
        let pc = cell_at(g, p);
        let ghost old_rev = rev@;
        rev.push(pc);
        proof {
            assert forall|j: int|
                0 <= j < rev@.len() - 1 implies #[trigger] g.legal_step(cv(rev@[j + 1]), cv(rev@[j])) by {
                if j < old_rev.len() - 1 {
                    assert(rev@[j + 1] == old_rev[j + 1]);
                    assert(rev@[j] == old_rev[j]);
                } else {
                    assert(rev@[j] == old_rev.last());
                }
            }
        }
        cur = p;
    }
    let mut path: Vec<(i32, i32)> = Vec::new();
    let mut i: usize = rev.len();
    while i > 0
        invariant
            i <= rev@.len(),
            rev@.len() == dgoal,
            path@.len() == rev@.len() - i,
            forall|j: int| 0 <= j < path@.len() ==> #[trigger] path@[j] == rev@[rev@.len() - 1 - j],
        decreases i,
    {
        i -= 1;
        path.push(rev[i]);
    }
    proof {
        let pv = cells_view(path@);
        let m = rev@.len() as int;
        assert forall|j: int| 0 <= j < pv.len() implies pv[j] == cv(rev@[m - 1 - j]) by {}
        assert forall|j: int| 0 <= j < pv.len() implies #[trigger] g.legal_step(
            prev_cell(start@, pv, j),
            pv[j],
        ) by {
            if j == 0 {
                assert(pv[0] == cv(rev@.last()));
            } else {
                assert(g.legal_step(cv(rev@[(m - 1 - j) + 1]), cv(rev@[m - 1 - j])));
                assert(pv[j - 1] == cv(rev@[m - 1 - (j - 1)]));
            }
        }
        assert(pv.last() == cv(rev@[0]));
    }
    path
}

/// Processes the cell at queue position `head`: reaches each of its eight
/// neighbours that a legal step leads to and that was not reached before, in
/// the search's neighbour order, and stops as soon as `goal` is reached.
fn expand(grid: &NavGrid, s: &mut Search, start: Ghost<Cell>, goal: (i32, i32), head: usize) -> (found: bool)
    requires
        old(s).inv(grid, start@, head as int),
        old(s).depth_inv(grid, head as int),
        head < old(s).queue@.len(),
        !old(s).is_visited(grid, cv(goal)),
        cv(goal) != start@,
        forall|j: int| 0 <= j < old(s).queue@.len() ==> coord_ok(#[trigger] old(s).queue@[j]),
    ensures
        forall|j: int| 0 <= j < final(s).queue@.len() ==> coord_ok(#[trigger] final(s).queue@[j]),
        head < final(s).queue@.len(),
        final(s).depth@[head as int] == old(s).depth@[head as int],
        found ==> {
            &&& final(s).inv(grid, start@, head as int)
            &&& final(s).depth_inv(grid, head as int)
            &&& final(s).is_visited(grid, cv(goal))
            &&& final(s).depth_of(grid, cv(goal)) == old(s).depth@[head as int] + 1
        },
        !found ==> {
            &&& final(s).inv(grid, start@, head + 1)
            &&& final(s).depth_inv(grid, head + 1)
            &&& !final(s).is_visited(grid, cv(goal))
            &&& final(s).queue@.len() <= grid.width * grid.height + 1
        },
{
    let ghost sc = start@;
    let ghost gc = cv(goal);
    let offsets: [(i64, i64); 8] = [(1, 0), (-1, 0), (0, 1), (0, -1), (1, 1), (1, -1), (-1, 1), (-1, -1)];
    let ghost c = cell_of(s.queue@[head as int]);
    let ghost dh = s.depth@[head as int];
    let mut j: usize = 0;
    while j < 8
        invariant
            head < s.queue@.len(),
            c == cell_of(s.queue@[head as int]),
            s.inv(grid, sc, head as int),
            s.depth_inv(grid, head as int),
            s.depth@[head as int] == dh,
            head < old(s).queue@.len(),
            old(s).depth@.len() == old(s).queue@.len(),
            dh == old(s).depth@[head as int],
            forall|m: int|
                0 <= m < j ==> (grid.legal_step(c, offset_target(c, #[trigger] offsets@[m]))
                    ==> s.depth_of(grid, offset_target(c, offsets@[m])) <= dh + 1),
            !s.is_visited(grid, gc),
            gc != sc,
            sc == start@,
            gc == cv(goal),
            forall|m: int| 0 <= m < s.queue@.len() ==> coord_ok(#[trigger] s.queue@[m]),
            offsets@ == seq![(1i64, 0i64), (-1i64, 0i64), (0i64, 1i64), (0i64, -1i64), (1i64, 1i64), (1i64, -1i64), (-1i64, 1i64), (-1i64, -1i64)],
            j <= 8,
            forall|m: int|
                0 <= m < j ==> (grid.legal_step(c, offset_target(c, #[trigger] offsets@[m]))
                    ==> s.is_visited(grid, offset_target(c, offsets@[m]))),
        decreases 8 - j,
    {
        let (dx, dy) = offsets[j];
        let ghost before = *s;
        assert(cell_of((goal.0 as i64, goal.1 as i64)) == gc);
        let found = try_step(grid, s, Ghost(sc), (goal.0 as i64, goal.1 as i64), head, dx, dy);
        proof {
            assert forall|m: int|
                0 <= m < j implies (grid.legal_step(c, offset_target(c, #[trigger] offsets@[m]))
                    ==> s.is_visited(grid, offset_target(c, offsets@[m]))) by {
                let t = offset_target(c, offsets@[m]);
                if grid.legal_step(c, t) {
                    assert(before.is_visited(grid, t));
                    lemma_index_cell(grid, t.0, t.1);
                }
            }
            assert forall|m: int|
                0 <= m < j implies (grid.legal_step(c, offset_target(c, #[trigger] offsets@[m]))
                    ==> s.depth_of(grid, offset_target(c, offsets@[m])) <= dh + 1) by {
                let t = offset_target(c, offsets@[m]);
                if grid.legal_step(c, t) {
                    assert(before.is_visited(grid, t));
                    assert(before.depth_of(grid, t) <= dh + 1);
                }
            }
            assert forall|m: int| 0 <= m < s.queue@.len() implies coord_ok(#[trigger] s.queue@[m]) by {
                if m < before.queue@.len() {
                    assert(s.queue@[m] == before.queue@[m]);
                }
            }
        }
        if found {
            return true;
        }
        j += 1;
    }
    proof {
        assert forall|t: Cell| #[trigger] grid.legal_step(c, t) implies s.is_visited(grid, t) by {
            let dx = t.0 - c.0;
            let dy = t.1 - c.1;
            let m: int = if dx == 1 && dy == 0 {
                0
            } else if dx == -1 && dy == 0 {
                1
            } else if dx == 0 && dy == 1 {
                2
            } else if dx == 0 && dy == -1 {
                3
            } else if dx == 1 && dy == 1 {
                4
            } else if dx == 1 && dy == -1 {
                5
            } else if dx == -1 && dy == 1 {
                6
            } else {
                7
            };
            assert(t == offset_target(c, offsets@[m]));
        }
        assert forall|t: Cell| #[trigger] grid.legal_step(c, t) implies s.is_visited(grid, t)
            && s.depth_of(grid, t) <= dh + 1 by {
            let dx = t.0 - c.0;
            let dy = t.1 - c.1;
            let m: int = if dx == 1 && dy == 0 {
                0
            } else if dx == -1 && dy == 0 {
                1
            } else if dx == 0 && dy == 1 {
                2
            } else if dx == 0 && dy == -1 {
                3
            } else if dx == 1 && dy == 1 {
                4
            } else if dx == 1 && dy == -1 {
                5
            } else if dx == -1 && dy == 1 {
                6
            } else {
                7
            };
            assert(t == offset_target(c, offsets@[m]));
        }
        assert(s.closed_depth(grid, c, dh));
        lemma_advance_depth(grid, &*s, head as int);
        lemma_queue_bound(grid, &*s, sc, head as int);
    }
    false
}

/// Breadth-first search over the grid from `start` to `goal`, moving to the
/// eight neighbours in the order right, left, down, up, then the diagonals
/// (+1,+1), (+1,-1), (-1,+1), (-1,-1).  Returns the cells after `start` up to and
/// including `goal` (none when `start == goal`), a walk with the fewest moves
/// of all walks there, or `None` when `goal` cannot be reached.
pub fn top_down_cell_path(grid: &NavGrid, start: (i32, i32), goal: (i32, i32)) -> (r: Option<
    Vec<(i32, i32)>,
>)
    requires
        grid.wf(),
    ensures
        r matches Some(p) ==> grid.walk_reaches(
            (start.0 as int, start.1 as int),
            (goal.0 as int, goal.1 as int),
            cells_view(p@),
        ),
        r is None <==> !grid.reachable((start.0 as int, start.1 as int), (goal.0 as int, goal.1 as int)),
        r matches Some(p) ==> forall|cells: Seq<Cell>|
            grid.walk_reaches((start.0 as int, start.1 as int), (goal.0 as int, goal.1 as int), cells)
                ==> p@.len() <= cells.len(),
{
    let ghost sc = (start.0 as int, start.1 as int);
    let ghost gc = (goal.0 as int, goal.1 as int);
    if start.0 == goal.0 && start.1 == goal.1 {
        let empty: Vec<(i32, i32)> = Vec::new();
        assert(grid.walk_reaches(sc, gc, cells_view(empty@)));
        return Some(empty);
    }
    if !cell_walkable(grid, goal.0 as i64, goal.1 as i64) {
        proof {
            if grid.reachable(sc, gc) {
                let cells = choose|cells: Seq<Cell>| grid.walk_reaches(sc, gc, cells);
                assert(grid.legal_step(prev_cell(sc, cells, cells.len() - 1), cells[cells.len() - 1]));
            }
        }
        return None;
    }
    let n = grid.width * grid.height;
    let mut visited: Vec<bool> = Vec::new();
    let mut parent: Vec<usize> = Vec::new();
    let mut order: Vec<usize> = Vec::new();
    let mut i: usize = 0;
    while i < n
        invariant
            i <= n,
            visited@.len() == i,
            parent@.len() == i,
            order@.len() == i,
            forall|j: int| 0 <= j < i ==> !#[trigger] visited@[j],
            forall|j: int| 0 <= j < i ==> #[trigger] order@[j] == 0,
        decreases n - i,
    {
        visited.push(false);
        parent.push(n);
        order.push(0);
        i += 1;
    }
    let sx = start.0 as i64;
    let sy = start.1 as i64;
    let ghost before_start = visited@;
    if sx >= 0 && sy >= 0 && sx < grid.width as i64 && sy < grid.height as i64 {
        proof {
            lemma_index_cell(grid, sc.0, sc.1);
        }
        let si = (sy as usize) * grid.width + (sx as usize);
        visited.set(si, true);
    }
    let mut queue: Vec<(i64, i64)> = Vec::new();
    queue.push((sx, sy));
    let ghost d0: Seq<int> = seq![0int];
    let depth: Ghost<Seq<int>> = Ghost(d0);
    let mut s = Search { visited, parent, order, queue, depth };
    proof {
        assert forall|i: int| 0 <= i < n implies #[trigger] s.visited@[i] == (grid.in_bounds(sc.0, sc.1)
            && i == grid.index_of(sc.0, sc.1)) by {
            if grid.in_bounds(sc.0, sc.1) {
                lemma_index_cell(grid, sc.0, sc.1);
            } else {
                assert(!before_start[i]);
            }
        }
        lemma_init(grid, &s, sc);
        if grid.in_bounds(gc.0, gc.1) {
            lemma_index_cell(grid, gc.0, gc.1);
            if grid.in_bounds(sc.0, sc.1) {
                lemma_index_cell(grid, sc.0, sc.1);
                lemma_cell_index(grid, grid.index_of(gc.0, gc.1));
            }
        }
    }
    let mut head: usize = 0;
    while head < s.queue.len()
        invariant
            s.inv(grid, sc, head as int),
            s.depth_inv(grid, head as int),
            !s.is_visited(grid, gc),
            gc != sc,
            sc == (start.0 as int, start.1 as int),
            gc == (goal.0 as int, goal.1 as int),
            forall|j: int| 0 <= j < s.queue@.len() ==> coord_ok(#[trigger] s.queue@[j]),
        decreases grid.width * grid.height + 1 - head,
    {
        let ghost dh = s.depth@[head as int];
        let found = expand(grid, &mut s, Ghost(sc), goal, head);
        if found {
            proof {
                lemma_chain(grid, &s, sc, head as int);
                assert forall|cells: Seq<Cell>| grid.walk_reaches(sc, gc, cells) implies cells.len() >= dh + 1 by {
                    lemma_shortest(grid, &s, sc, gc, head as int, cells);
                }
            }
            let path = build_path(grid, &s, Ghost(sc), goal);
            return Some(path);
        }
        head += 1;
    }
    proof {
        lemma_unreachable(grid, &s, sc, gc);
    }
    None
}


/// The search invariant gives valid parents for every reached cell.
proof fn lemma_chain(g: &NavGrid, s: &Search, start: Cell, done: int)
    requires
        s.inv(g, start, done),
    ensures
        s.chain_ok(g, start),
{
}

/// The initial search state: only the start reached (when it lies inside the
/// grid), and only the start queued.
proof fn lemma_init(g: &NavGrid, s: &Search, start: Cell)
    requires
        g.wf(),
        s.visited@.len() == g.width * g.height,
        s.parent@.len() == g.width * g.height,
        s.order@.len() == g.width * g.height,
        forall|i: int| 0 <= i < g.width * g.height ==> #[trigger] s.visited@[i] == (g.in_bounds(start.0, start.1)
            && i == g.index_of(start.0, start.1)),
        forall|i: int| 0 <= i < g.width * g.height ==> #[trigger] s.order@[i] == 0,
        s.queue@.len() == 1,
        cell_of(s.queue@[0]) == start,
        s.depth@ == seq![0int],
    ensures
        s.inv(g, start, 0),
        s.depth_inv(g, 0),
{
    let n = g.width * g.height;
    if g.in_bounds(start.0, start.1) {
        lemma_index_cell(g, start.0, start.1);
    }
    assert(n >= 0) by (nonlinear_arith)
        requires
            g.width >= 0,
            g.height >= 0,
            n == g.width * g.height,
    ;
    assert forall|i: int| 0 <= i < n && #[trigger] s.visited@[i] implies {
        let c = g.pos_of(i);
        &&& s.order@[i] < s.queue@.len()
        &&& cell_of(s.queue@[s.order@[i] as int]) == c
        &&& (s.order@[i] == 0 <==> c == start)
        &&& (s.order@[i] > 0 ==> s.parent_ok(g, start, i))
    } by {
        lemma_cell_index(g, i);
        lemma_index_cell(g, start.0, start.1);
    }
}

/// The queue never holds more than one entry per cell plus the start.
proof fn lemma_queue_bound(g: &NavGrid, s: &Search, start: Cell, done: int)
    requires
        s.inv(g, start, done),
    ensures
        s.queue@.len() <= g.width * g.height + 1,
{
}

} // verus!
