//! Percolation on a boolean grid: whether open cells connect the top row
//! to the bottom row. The search is proved equivalent to an inductive
//! reachability specification.

use vstd::prelude::*;
use std::collections::VecDeque;

verus! {

/// A grid of boolean values, indexed column-first: a cell is "open" when
/// its value is `false`.
pub struct BoolGrid {
    width: usize,
    height: usize,
    data: Vec<Vec<bool>>,
}

impl View for BoolGrid {
    type V = Seq<Seq<bool>>;

    closed spec fn view(&self) -> Seq<Seq<bool>> {
        self.data@.map_values(|col: Vec<bool>| col@)
    }
}

impl BoolGrid {
    /// Bridge between the grid's view and its columns.
    proof fn lemma_view_cols(&self)
        ensures
            self@.len() == self.data@.len(),
            forall|x: int| 0 <= x < self.data@.len() ==> self@[x] == (#[trigger] self.data@[x])@,
    {
    }

    /// The grid's width, as the specification sees it.
    pub closed spec fn spec_width(&self) -> int {
        self.width as int
    }

    /// The grid's height, as the specification sees it.
    pub closed spec fn spec_height(&self) -> int {
        self.height as int
    }

    /// The grid holds `width` columns of `height` cells each.
    pub open spec fn wf(&self) -> bool {
        &&& self@.len() == self.spec_width()
        &&& forall|x: int| 0 <= x < self@.len() ==> (#[trigger] self@[x]).len()
            == self.spec_height()
    }

    /// A grid with every value `false`.
    pub fn new(width: usize, height: usize) -> (g: BoolGrid)
        ensures
            g.wf(),
            g.spec_width() == width,
            g.spec_height() == height,
            forall|x: int, y: int| 0 <= x < width && 0 <= y < height ==> !(#[trigger] g@[x][y]),
    {
        let column: Vec<bool> = vec![false; height];
        let data: Vec<Vec<bool>> = vec![column; width];
        let g = BoolGrid { width, height, data };
        proof {
            assert forall|x: int, y: int| 0 <= x < width && 0 <= y < height implies !(
            #[trigger] g@[x][y]) by {
                assert(g@[x] == g.data@[x]@);
            }
            assert forall|x: int| 0 <= x < g@.len() implies (#[trigger] g@[x]).len()
                == height by {
                assert(g@[x] == g.data@[x]@);
            }
        }
        g
    }

    /// The grid's width.
    pub fn width(&self) -> (w: usize)
        ensures
            w == self.spec_width(),
    {
        self.width
    }

    /// The grid's height.
    pub fn height(&self) -> (h: usize)
        ensures
            h == self.spec_height(),
    {
        self.height
    }

    /// The value of one cell.
    pub fn get(&self, x: usize, y: usize) -> (b: bool)
        requires
            self.wf(),
            x < self.spec_width(),
            y < self.spec_height(),
        ensures
            b == self@[x as int][y as int],
    {
        proof {
            self.lemma_view_cols();
        }
        self.data[x][y]
    }

    /// Set one cell.
    pub fn set(&mut self, x: usize, y: usize, value: bool)
        requires
            old(self).wf(),
            x < old(self).spec_width(),
            y < old(self).spec_height(),
        ensures
            final(self).wf(),
            final(self).spec_width() == old(self).spec_width(),
            final(self).spec_height() == old(self).spec_height(),
            final(self)@ == old(self)@.update(x as int, old(self)@[x as int].update(y as int, value)),
    {
        proof {
            self.lemma_view_cols();
        }
        self.data[x][y] = value;
        proof {
            assert(self@ =~= old(self)@.update(
                x as int,
                old(self)@[x as int].update(y as int, value),
            ));
        }
    }

    /// The open cells of the top row, leftmost first: the roots any
    /// percolation path starts from.
    pub fn dfs_roots(&self) -> (roots: Vec<(usize, usize)>)
        requires
            self.wf(),
        ensures
            roots@.len() <= self.spec_width(),
            forall|i: int| 0 <= i < roots@.len() ==> {
                let c = #[trigger] roots@[i];
                &&& c.0 < self.spec_width()
                &&& c.1 == 0
                &&& !self@[c.0 as int][0]
            },
            forall|x: int|
                0 <= x < self.spec_width() && self.spec_height() > 0 && !(#[trigger] self@[x][0])
                    ==> exists|i: int| 0 <= i < roots@.len() && roots@[i] == ((x as usize, 0usize)),
    {
        let mut roots: Vec<(usize, usize)> = Vec::new();
        if self.height == 0 {
            return roots;
        }
        let mut x: usize = 0;
        while x < self.width
            invariant
                self.wf(),
                self@.len() == self.data@.len(),
                forall|x2: int|
                    0 <= x2 < self.data@.len() ==> self@[x2] == (#[trigger] self.data@[x2])@,
                self.spec_height() > 0,
                x <= self.spec_width(),
                roots@.len() <= x,
                forall|i: int| 0 <= i < roots@.len() ==> {
                    let c = #[trigger] roots@[i];
                    &&& c.0 < self.spec_width()
                    &&& c.1 == 0
                    &&& !self@[c.0 as int][0]
                },
                forall|x2: int|
                    0 <= x2 < x && !(#[trigger] self@[x2][0]) ==> exists|i: int|
                        0 <= i < roots@.len() && roots@[i] == ((x2 as usize, 0usize)),
            decreases self.spec_width() - x,
        {
            proof {
                self.lemma_view_cols();
            }
            let ghost r0 = roots@;
            if !self.data[x][0] {
                roots.push((x, 0));
            }
            proof {
                assert forall|x2: int| 0 <= x2 < x + 1 && !(#[trigger] self@[x2][0]) implies exists|
                    i: int,
                |
                    0 <= i < roots@.len() && roots@[i] == ((x2 as usize, 0usize)) by {
                    if x2 < x {
                        let i = choose|i: int|
                            0 <= i < r0.len() && #[trigger] r0[i] == ((x2 as usize, 0usize));
                        assert(roots@[i] == ((x2 as usize, 0usize)));
                    } else {
                        assert(roots@[roots@.len() - 1] == ((x2 as usize, 0usize)));
                    }
                }
            }
            x += 1;
        }
        roots
    }

    /// The open in-bounds neighbours of a cell, in the fixed scan order:
    /// left, below, above, right.
    pub fn neighbours(&self, x: usize, y: usize) -> (nbs: Vec<(usize, usize)>)
        requires
            self.wf(),
            x < self.spec_width(),
            y < self.spec_height(),
        ensures
            forall|i: int| 0 <= i < nbs@.len() ==> {
                let c = #[trigger] nbs@[i];
                &&& c.0 < self.spec_width()
                &&& c.1 < self.spec_height()
                &&& !self@[c.0 as int][c.1 as int]
                &&& adjacent(x as int, y as int, c.0 as int, c.1 as int)
            },
            forall|x2: int, y2: int|
                adjacent(x as int, y as int, x2, y2) && 0 <= x2 < self.spec_width() && 0 <= y2
                    < self.spec_height() && !(#[trigger] self@[x2][y2]) ==> exists|i: int|
                    0 <= i < nbs@.len() && nbs@[i] == ((x2 as usize, y2 as usize)),
    {
        proof {
            self.lemma_view_cols();
        }
        let mut nbs: Vec<(usize, usize)> = Vec::new();
        let left = x > 0 && !self.data[x - 1][y];
        let down = y > 0 && !self.data[x][y - 1];
        let up = y + 1 < self.height && !self.data[x][y + 1];
        let right = x + 1 < self.width && !self.data[x + 1][y];
        let ghost mut i_left: int = 0;
        let ghost mut i_down: int = 0;
        let ghost mut i_up: int = 0;
        let ghost mut i_right: int = 0;
        if left {
            proof {
                i_left = nbs@.len() as int;
            }
            nbs.push((x - 1, y));
        }
        if down {
            proof {
                i_down = nbs@.len() as int;
            }
            nbs.push((x, y - 1));
        }
        if up {
            proof {
                i_up = nbs@.len() as int;
            }
            nbs.push((x, y + 1));
        }
        if right {
            proof {
                i_right = nbs@.len() as int;
            }
            nbs.push((x + 1, y));
        }
        proof {
            assert forall|x2: int, y2: int|
                adjacent(x as int, y as int, x2, y2) && 0 <= x2 < self.spec_width() && 0 <= y2
                    < self.spec_height() && !(#[trigger] self@[x2][y2]) implies exists|i: int|
                0 <= i < nbs@.len() && nbs@[i] == ((x2 as usize, y2 as usize)) by {
                let c = ((x2 as usize, y2 as usize));
                if y2 == y as int && x2 == x as int - 1 {
                    assert(left);
                    assert(nbs@[i_left] == c);
                } else if x2 == x as int && y2 == y as int - 1 {
                    assert(down);
                    assert(nbs@[i_down] == c);
                } else if x2 == x as int && y2 == y as int + 1 {
                    assert(up);
                    assert(nbs@[i_up] == c);
                } else {
                    assert(x2 == x as int + 1 && y2 == y as int);
                    assert(right);
                    assert(nbs@[i_right] == c);
                }
            }
        }
        nbs
    }
}

/// Two cells share an edge.
pub open spec fn adjacent(x1: int, y1: int, x2: int, y2: int) -> bool {
    ||| (x1 == x2 && (y1 == y2 + 1 || y2 == y1 + 1))
    ||| (y1 == y2 && (x1 == x2 + 1 || x2 == x1 + 1))
}

/// The cell is in bounds and open.
pub open spec fn cell_open(g: Seq<Seq<bool>>, h: int, x: int, y: int) -> bool {
    &&& 0 <= x < g.len()
    &&& 0 <= y < h
    &&& !g[x][y]
}

/// The cell is open and connected to the top row through open cells, by a
/// path of at most `k` steps.
pub open spec fn reach(g: Seq<Seq<bool>>, h: int, x: int, y: int, k: nat) -> bool
    decreases k,
{
    &&& cell_open(g, h, x, y)
    &&& (y == 0 || (k > 0 && exists|x2: int, y2: int|
        #[trigger] adjacent(x, y, x2, y2) && reach(g, h, x2, y2, (k - 1) as nat)))
}

/// The cell is open and connected to the top row through open cells.
pub open spec fn reachable(g: Seq<Seq<bool>>, h: int, x: int, y: int) -> bool {
    exists|k: nat| reach(g, h, x, y, k)
}

/// The grid percolates: it is degenerate, or some open bottom-row cell is
/// connected to the top row through open cells.
pub open spec fn spec_percolates(g: Seq<Seq<bool>>, h: int) -> bool {
    ||| g.len() == 0
    ||| h == 0
    ||| exists|x: int, y: int| y == h - 1 && #[trigger] reachable(g, h, x, y)
}

/// How many cells of a column are still unvisited.
spec fn count_col(col: Seq<bool>) -> int
    decreases col.len(),
{
    if col.len() == 0 {
        0
    } else {
        count_col(col.drop_last()) + if col.last() {
            0int
        } else {
            1int
        }
    }
}

/// How many cells of a grid are still unvisited.
spec fn count_grid(g: Seq<Seq<bool>>) -> int
    decreases g.len(),
{
    if g.len() == 0 {
        0
    } else {
        count_grid(g.drop_last()) + count_col(g.last())
    }
}

proof fn lemma_count_col_bounds(col: Seq<bool>)
    ensures
        0 <= count_col(col) <= col.len(),
    decreases col.len(),
{
    if col.len() > 0 {
        lemma_count_col_bounds(col.drop_last());
    }
}

proof fn lemma_count_col_update(col: Seq<bool>, y: int)
    requires
        0 <= y < col.len(),
        !col[y],
    ensures
        count_col(col.update(y, true)) == count_col(col) - 1,
    decreases col.len(),
{
    let upd = col.update(y, true);
    if y == col.len() - 1 {
        assert(upd.drop_last() =~= col.drop_last());
    } else {
        lemma_count_col_update(col.drop_last(), y);
        assert(upd.drop_last() =~= col.drop_last().update(y, true));
        assert(upd.last() == col.last());
    }
}

proof fn lemma_count_grid_parts(g: Seq<Seq<bool>>, x: int)
    requires
        0 <= x < g.len(),
    ensures
        forall|c: Seq<bool>|
            count_grid(#[trigger] g.update(x, c)) == count_grid(g) - count_col(g[x]) + count_col(
                c,
            ),
    decreases g.len(),
{
    assert forall|c: Seq<bool>|
        count_grid(#[trigger] g.update(x, c)) == count_grid(g) - count_col(g[x]) + count_col(
            c,
        ) by {
        let upd = g.update(x, c);
        if x == g.len() - 1 {
            assert(upd.drop_last() =~= g.drop_last());
            assert(upd.last() == c);
        } else {
            lemma_count_grid_parts(g.drop_last(), x);
            assert(upd.drop_last() =~= g.drop_last().update(x, c));
            assert(upd.last() == g.last());
            assert(g.drop_last()[x] == g[x]);
        }
    }
}

proof fn lemma_count_grid_bounds(g: Seq<Seq<bool>>)
    ensures
        count_grid(g) >= 0,
    decreases g.len(),
{
    if g.len() > 0 {
        lemma_count_grid_bounds(g.drop_last());
        lemma_count_col_bounds(g.last());
    }
}

/// A cell is somewhere in the queue.
spec fn in_queue(q: Seq<(usize, usize)>, x: int, y: int) -> bool {
    exists|i: int| 0 <= i < q.len() && #[trigger] q[i] == ((x as usize, y as usize))
}

/// Once the frontier is exhausted, a visited set that contains every open
/// top-row cell and is closed under open adjacency contains every
/// reachable cell.
proof fn lemma_reach_subset_visited(
    g: Seq<Seq<bool>>,
    h: int,
    visited: Seq<Seq<bool>>,
    x: int,
    y: int,
    k: nat,
)
    requires
        reach(g, h, x, y, k),
        forall|x2: int| 0 <= x2 < g.len() && h > 0 && !(#[trigger] g[x2][0]) ==> visited[x2][0],
        forall|x1: int, y1: int, x2: int, y2: int|
            0 <= x1 < g.len() && 0 <= y1 < h && visited[x1][y1] && #[trigger] adjacent(
                x1,
                y1,
                x2,
                y2,
            ) && cell_open(g, h, x2, y2) ==> visited[x2][y2],
    ensures
        visited[x][y],
    decreases k,
{
    if y == 0 {
    } else {
        let (x2, y2) = choose|x2: int, y2: int|
            #[trigger] adjacent(x, y, x2, y2) && reach(g, h, x2, y2, (k - 1) as nat);
        lemma_reach_subset_visited(g, h, visited, x2, y2, (k - 1) as nat);
        assert(adjacent(x2, y2, x, y));
    }
}

/// Every queued cell is in bounds and visited, and every visited cell is
/// open and reachable.
spec fn bfs_sound(
    g: Seq<Seq<bool>>,
    h: int,
    visited: Seq<Seq<bool>>,
    q: Seq<(usize, usize)>,
) -> bool {
    &&& forall|j: int| 0 <= j < q.len() ==> {
        let c = #[trigger] q[j];
        &&& c.0 < g.len()
        &&& c.1 < h
        &&& visited[c.0 as int][c.1 as int]
    }
    &&& forall|x: int, y: int|
        0 <= x < g.len() && 0 <= y < h && #[trigger] visited[x][y] ==> cell_open(g, h, x, y)
            && reachable(g, h, x, y)
}

/// A visited cell whose open neighbour is unvisited is still pending.
spec fn bfs_frontier(
    g: Seq<Seq<bool>>,
    h: int,
    visited: Seq<Seq<bool>>,
    q: Seq<(usize, usize)>,
) -> bool {
    forall|x1: int, y1: int, x2: int, y2: int|
        0 <= x1 < g.len() && 0 <= y1 < h && visited[x1][y1] && #[trigger] adjacent(x1, y1, x2, y2)
            && cell_open(g, h, x2, y2) && !visited[x2][y2] ==> in_queue(q, x1, y1)
}

/// Every visited bottom-row cell is still pending.
spec fn bfs_bottom(
    g: Seq<Seq<bool>>,
    h: int,
    visited: Seq<Seq<bool>>,
    q: Seq<(usize, usize)>,
) -> bool {
    forall|x: int| 0 <= x < g.len() && h > 0 && #[trigger] visited[x][h - 1] ==> in_queue(
        q,
        x,
        h - 1,
    )
}

/// Whether the grid percolates: whether a path of open cells, stepping
/// between edge-adjacent cells, connects some open top-row cell to some
/// open bottom-row cell. A degenerate grid percolates.
pub fn percolates(grid: &BoolGrid) -> (r: bool)
    requires
        grid.wf(),
    ensures
        r == spec_percolates(grid@, grid.spec_height()),
{
    let w = grid.width();
    let h = grid.height();
    let ghost g = grid@;
    if h == 0 || w == 0 {
        return true;
    }
    let roots = grid.dfs_roots();
    let mut visited = BoolGrid::new(w, h);
    let mut queue: VecDeque<(usize, usize)> = VecDeque::new();
    let mut i: usize = 0;
    while i < roots.len()
        invariant
            grid.wf(),
            visited.wf(),
            g == grid@,
            w == grid.spec_width(),
            h == grid.spec_height(),
            w > 0,
            h > 0,
            visited.spec_width() == w,
            visited.spec_height() == h,
            i <= roots@.len(),
            forall|j: int| 0 <= j < roots@.len() ==> {
                let c = #[trigger] roots@[j];
                &&& c.0 < w
                &&& c.1 == 0
                &&& !g[c.0 as int][0]
            },
            forall|x: int| 0 <= x < w && !(#[trigger] g[x][0]) ==> exists|j: int|
                0 <= j < roots@.len() && roots@[j] == ((x as usize, 0usize)),
            bfs_sound(g, h as int, visited@, queue@),
            forall|x: int, y: int|
                0 <= x < w && 0 <= y < h && #[trigger] visited@[x][y] ==> in_queue(queue@, x, y),
            forall|j: int| 0 <= j < i ==> visited@[(#[trigger] roots@[j]).0 as int][0],
        decreases roots@.len() - i,
    {
        let (rx, ry) = roots[i];
        if !visited.get(rx, ry) {
            let ghost vis0 = visited@;
            let ghost q0 = queue@;
            visited.set(rx, ry, true);
            queue.push_back((rx, ry));
            proof {
                assert(reach(g, h as int, rx as int, 0, 0nat));
                assert(reachable(g, h as int, rx as int, 0));
                assert(queue@[queue@.len() - 1] == ((rx, ry)));
                assert forall|x: int, y: int|
                    0 <= x < w && 0 <= y < h && #[trigger] visited@[x][y] implies in_queue(
                    queue@,
                    x,
                    y,
                ) by {
                    if x == rx as int && y == ry as int {
                        assert(queue@[queue@.len() - 1] == ((x as usize, y as usize)));
                    } else {
                        assert(vis0[x][y]);
                        let j = choose|j: int| 0 <= j < q0.len() && #[trigger] q0[j] == ((
                        x as usize,
                        y as usize,
                        ));
                        assert(queue@[j] == ((x as usize, y as usize)));
                    }
                }
            }
        }
        i += 1;
    }
    proof {
        lemma_count_grid_bounds(visited@);
    }
    loop
        invariant
            grid.wf(),
            visited.wf(),
            g == grid@,
            w == grid.spec_width(),
            h == grid.spec_height(),
            w > 0,
            h > 0,
            visited.spec_width() == w,
            visited.spec_height() == h,
            forall|x: int| 0 <= x < w && !(#[trigger] g[x][0]) ==> visited@[x][0],
            bfs_sound(g, h as int, visited@, queue@),
            bfs_frontier(g, h as int, visited@, queue@),
            bfs_bottom(g, h as int, visited@, queue@),
        decreases count_grid(visited@), queue@.len(),
    {
        proof {
            lemma_count_grid_bounds(visited@);
        }
        let ghost qpre = queue@;
        let next = queue.pop_front();
        match next {
            None => {
                proof {
                    if spec_percolates(g, h as int) {
                        let (x, y) = choose|x: int, y: int|
                            y == h - 1 && #[trigger] reachable(g, h as int, x, y);
                        let k = choose|k: nat| reach(g, h as int, x, y, k);
                        assert forall|x1: int, y1: int, x2: int, y2: int|
                            0 <= x1 < g.len() && 0 <= y1 < h && visited@[x1][y1]
                                && #[trigger] adjacent(x1, y1, x2, y2) && cell_open(
                                g,
                                h as int,
                                x2,
                                y2,
                            ) implies visited@[x2][y2] by {
                            if !visited@[x2][y2] {
                                assert(in_queue(queue@, x1, y1));
                            }
                        }
                        lemma_reach_subset_visited(g, h as int, visited@, x, y, k);
                        assert(visited@[x][h - 1]);
                        assert(in_queue(queue@, x, h - 1));
                    }
                }
                return false;
            },
            Some(cell) => {
                let cx = cell.0;
                let cy = cell.1;
                let ghost qpop = queue@;
                if cy + 1 == h {
                    proof {
                        assert(visited@[cx as int][cy as int]);
                        assert(reachable(g, h as int, cx as int, cy as int));
                        assert(spec_percolates(g, h as int));
                    }
                    return true;
                }
                proof {
                    assert forall|x: int| 0 <= x < g.len() && h > 0 && #[trigger] visited@[x][h
                        - 1] implies in_queue(qpop, x, (h - 1) as int) by {
                        let j = choose|j: int|
                            0 <= j < qpre.len() && #[trigger] qpre[j] == ((
                            x as usize,
                            (h - 1) as usize,
                            ));
                        assert(j != 0);
                        assert(qpop[j - 1] == ((x as usize, (h - 1) as usize)));
                    }
                    assert forall|x1: int, y1: int, x2: int, y2: int|
                        0 <= x1 < g.len() && 0 <= y1 < h && visited@[x1][y1] && !(x1 == cx as int
                            && y1 == cy as int) && #[trigger] adjacent(x1, y1, x2, y2)
                            && cell_open(g, h as int, x2, y2) && !visited@[x2][y2] implies in_queue(
                        qpop,
                        x1,
                        y1,
                    ) by {
                        assert(in_queue(qpre, x1, y1));
                        let j = choose|j: int|
                            0 <= j < qpre.len() && #[trigger] qpre[j] == ((
                            x1 as usize,
                            y1 as usize,
                            ));
                        assert(j != 0);
                        assert(qpop[j - 1] == ((x1 as usize, y1 as usize)));
                    }
                }
                let nbs = grid.neighbours(cx, cy);
                let ghost c0 = count_grid(visited@);
                let ghost qn0 = queue@.len() as int;
                let mut k: usize = 0;
                while k < nbs.len()
                    invariant
                        grid.wf(),
                        visited.wf(),
                        g == grid@,
                        w == grid.spec_width(),
                        h == grid.spec_height(),
                        w > 0,
                        h > 0,
                        visited.spec_width() == w,
                        visited.spec_height() == h,
                        cx < w,
                        cy < h,
                        cy + 1 != h,
                        visited@[cx as int][cy as int],
                        k <= nbs@.len(),
                        forall|j: int| 0 <= j < nbs@.len() ==> {
                            let c = #[trigger] nbs@[j];
                            &&& c.0 < w
                            &&& c.1 < h
                            &&& !g[c.0 as int][c.1 as int]
                            &&& adjacent(cx as int, cy as int, c.0 as int, c.1 as int)
                        },
                        forall|x2: int, y2: int|
                            adjacent(cx as int, cy as int, x2, y2) && 0 <= x2 < w && 0 <= y2 < h
                                && !(#[trigger] g[x2][y2]) ==> exists|j: int|
                                0 <= j < nbs@.len() && nbs@[j] == ((x2 as usize, y2 as usize)),
                        forall|j: int|
                            0 <= j < k ==> {
                                let c = #[trigger] nbs@[j];
                                visited@[c.0 as int][c.1 as int]
                            },
                        forall|x: int| 0 <= x < w && !(#[trigger] g[x][0]) ==> visited@[x][0],
                        bfs_sound(g, h as int, visited@, queue@),
                        bfs_bottom(g, h as int, visited@, queue@),
                        forall|x1: int, y1: int, x2: int, y2: int|
                            0 <= x1 < g.len() && 0 <= y1 < h && visited@[x1][y1] && !(x1 == cx
                                as int && y1 == cy as int) && #[trigger] adjacent(x1, y1, x2, y2)
                                && cell_open(g, h as int, x2, y2) && !visited@[x2][y2]
                                ==> in_queue(queue@, x1, y1),
                        count_grid(visited@) + queue@.len() == c0 + qn0,
                        count_grid(visited@) <= c0,
                        count_grid(visited@) >= 0,
                    decreases nbs@.len() - k,
                {
                    let nb = nbs[k];
                    let nx = nb.0;
                    let ny = nb.1;
                    if !visited.get(nx, ny) {
                        let ghost vis0 = visited@;
                        let ghost q0 = queue@;
                        visited.set(nx, ny, true);
                        queue.push_front((nx, ny));
                        proof {
                            lemma_count_grid_parts(vis0, nx as int);
                            lemma_count_col_update(vis0[nx as int], ny as int);
                            assert(count_grid(visited@) == count_grid(vis0) - 1);
                            lemma_count_grid_bounds(visited@);
                            assert(queue@ == seq![(nx, ny)] + q0);
                            assert(queue@[0] == ((nx, ny)));
                            assert forall|x: int, y: int| in_queue(q0, x, y) implies in_queue(
                                queue@,
                                x,
                                y,
                            ) by {
                                let j = choose|j: int|
                                    0 <= j < q0.len() && #[trigger] q0[j] == ((
                                    x as usize,
                                    y as usize,
                                    ));
                                assert(queue@[j + 1] == ((x as usize, y as usize)));
                            }
                            let ghost kr = choose|kr: nat|
                                reach(g, h as int, cx as int, cy as int, kr);
                            assert(adjacent(nx as int, ny as int, cx as int, cy as int));
                            assert(reach(g, h as int, nx as int, ny as int, kr + 1));
                            assert(reachable(g, h as int, nx as int, ny as int));
                        }
                    }
                    k += 1;
                }
                proof {
                    assert forall|x1: int, y1: int, x2: int, y2: int|
                        0 <= x1 < g.len() && 0 <= y1 < h && visited@[x1][y1] && #[trigger] adjacent(
                            x1,
                            y1,
                            x2,
                            y2,
                        ) && cell_open(g, h as int, x2, y2) && !visited@[x2][y2] implies in_queue(
                        queue@,
                        x1,
                        y1,
                    ) by {
                        if x1 == cx as int && y1 == cy as int {
                            let j = choose|j: int|
                                0 <= j < nbs@.len() && #[trigger] nbs@[j] == ((
                                x2 as usize,
                                y2 as usize,
                                ));
                            assert(visited@[x2][y2]);
                        }
                    }
                }
            },
        }
    }
}

} // verus!
