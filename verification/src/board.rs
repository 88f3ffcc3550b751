use vstd::prelude::*;

use crate::tile::Tile;

verus! {

broadcast use vstd::seq_lib::group_seq_properties;

/// Axial coordinate of a hex tile.
#[derive(PartialEq, Eq, Structural, Hash, Clone, Copy, Debug)]
pub struct HexCoord {
    pub q: i32,
    pub r: i32,
}

/// Whether an integer lies in the range of `i32`.
pub open spec fn fits(x: int) -> bool {
    i32::MIN <= x <= i32::MAX
}

impl HexCoord {
    /// The coordinate with the given components, which must fit in `i32`.
    pub open spec fn at(q: int, r: int) -> HexCoord {
        HexCoord { q: q as i32, r: r as i32 }
    }

    /// The six neighbouring coordinates can be computed without overflow.
    pub open spec fn neighbors_fit(self) -> bool {
        &&& fits(self.q + 1) && fits(self.q - 1)
        &&& fits(self.r + 1) && fits(self.r - 1)
    }

    /// The neighbours, counter-clockwise starting from the right.
    pub open spec fn spec_neighbors(self) -> Seq<HexCoord> {
        seq![
            HexCoord::at(self.q + 1, self.r as int),
            HexCoord::at(self.q + 1, self.r - 1),
            HexCoord::at(self.q as int, self.r - 1),
            HexCoord::at(self.q - 1, self.r as int),
            HexCoord::at(self.q - 1, self.r + 1),
            HexCoord::at(self.q as int, self.r + 1),
        ]
    }

    pub fn neighbors(&self) -> (res: [HexCoord; 6])
        requires
            self.neighbors_fit(),
        ensures
            res@ == self.spec_neighbors(),
    {
        let res = [
            HexCoord { q: self.q + 1, r: self.r },
            HexCoord { q: self.q + 1, r: self.r - 1 },
            HexCoord { q: self.q, r: self.r - 1 },
            HexCoord { q: self.q - 1, r: self.r },
            HexCoord { q: self.q - 1, r: self.r + 1 },
            HexCoord { q: self.q, r: self.r + 1 },
        ];
        assert(res@ =~= self.spec_neighbors());
        res
    }
}

/// Coordinate of a corner where up to three hexes meet.
#[derive(Debug, Copy, Clone, PartialEq, Eq, Structural, Hash)]
pub struct VertexCoord {
    pub x: i32,
    pub y: i32,
}

/// Coordinate of a side shared by up to two hexes.
#[derive(Debug, Copy, Clone, PartialEq, Eq, Structural, Hash)]
pub struct EdgeCoord {
    pub x: i32,
    pub y: i32,
}

impl VertexCoord {
    /// The vertex with the given components, which must fit in `i32`.
    pub open spec fn at(x: int, y: int) -> VertexCoord {
        VertexCoord { x: x as i32, y: y as i32 }
    }
}

impl EdgeCoord {
    /// The edge with the given components, which must fit in `i32`.
    pub open spec fn at(x: int, y: int) -> EdgeCoord {
        EdgeCoord { x: x as i32, y: y as i32 }
    }
}

impl HexCoord {
    /// Every intermediate value of the corner computation fits in `i32`.
    pub open spec fn vertices_fit(self) -> bool {
        let q = self.q as int;
        let r = self.r as int;
        &&& fits(2 * q) && fits(2 * q + r) && fits(2 * q + r + 1) && fits(2 * q + r - 1)
        &&& fits(2 * r) && fits(2 * r - 1) && fits(2 * r + 1) && fits(2 * r + 2)
    }

    /// Every intermediate value of the side computation fits in `i32`.
    pub open spec fn edges_fit(self) -> bool {
        let q = self.q as int;
        let r = self.r as int;
        &&& fits(4 * q) && fits(2 * r) && fits(4 * q + 2 * r)
        &&& fits(4 * q + 2 * r + 1) && fits(4 * q + 2 * r + 2)
        &&& fits(4 * q + 2 * r - 1) && fits(4 * q + 2 * r - 2)
        &&& fits(4 * r) && fits(4 * r - 1) && fits(4 * r + 1) && fits(4 * r + 3)
    }

    /// The six corners: top, top-right, bottom-right, bottom, bottom-left, top-left.
    pub open spec fn spec_vertices(self) -> Seq<VertexCoord> {
        let b = 2 * self.q + self.r;
        let r = self.r as int;
        seq![
            VertexCoord::at(b, 2 * r - 1),
            VertexCoord::at(b + 1, 2 * r),
            VertexCoord::at(b + 1, 2 * r + 1),
            VertexCoord::at(b, 2 * r + 2),
            VertexCoord::at(b - 1, 2 * r + 1),
            VertexCoord::at(b - 1, 2 * r),
        ]
    }

    /// The six sides: north-east, east, south-east, south-west, west, north-west.
    pub open spec fn spec_edges(self) -> Seq<EdgeCoord> {
        let e = 4 * self.q + 2 * self.r;
        let r = self.r as int;
        seq![
            EdgeCoord::at(e + 1, 4 * r - 1),
            EdgeCoord::at(e + 2, 4 * r + 1),
            EdgeCoord::at(e + 1, 4 * r + 3),
            EdgeCoord::at(e - 1, 4 * r + 3),
            EdgeCoord::at(e - 2, 4 * r + 1),
            EdgeCoord::at(e - 1, 4 * r - 1),
        ]
    }

    pub fn vertices(&self) -> (res: [VertexCoord; 6])
        requires
            self.vertices_fit(),
        ensures
            res@ == self.spec_vertices(),
    {
        let q = self.q;
        let r = self.r;
        let res = [
            VertexCoord { x: 2 * q + r, y: 2 * r - 1 },
            VertexCoord { x: 2 * q + r + 1, y: 2 * r },
            VertexCoord { x: 2 * q + r + 1, y: 2 * r + 1 },
            VertexCoord { x: 2 * q + r, y: 2 * r + 2 },
            VertexCoord { x: 2 * q + r - 1, y: 2 * r + 1 },
            VertexCoord { x: 2 * q + r - 1, y: 2 * r },
        ];
        assert(res@ =~= self.spec_vertices());
        res
    }

    pub fn edges(&self) -> (res: [EdgeCoord; 6])
        requires
            self.edges_fit(),
        ensures
            res@ == self.spec_edges(),
    {
        let q = self.q;
        let r = self.r;
        let res = [
            EdgeCoord { x: 4 * q + 2 * r + 1, y: 4 * r - 1 },
            EdgeCoord { x: 4 * q + 2 * r + 2, y: 4 * r + 1 },
            EdgeCoord { x: 4 * q + 2 * r + 1, y: 4 * r + 3 },
            EdgeCoord { x: 4 * q + 2 * r - 1, y: 4 * r + 3 },
            EdgeCoord { x: 4 * q + 2 * r - 2, y: 4 * r + 1 },
            EdgeCoord { x: 4 * q + 2 * r - 1, y: 4 * r - 1 },
        ];
        assert(res@ =~= self.spec_edges());
        res
    }
}

/// The board: its tiles (at most one per coordinate), and the corners and
/// sides of those tiles, each listed once.
#[derive(Clone, Debug)]
pub struct Board {
    pub tiles: Vec<Tile>,
    pub vertices: Vec<VertexCoord>,
    pub edges: Vec<EdgeCoord>,
}

impl VertexCoord {
    /// The coordinates of the board's tiles that have this vertex as a corner,
    /// in the order of the board's tiles.
    pub fn adjacent_hexes(&self, board: &Board) -> (res: Vec<HexCoord>)
        requires
            board.corners_fit(),
        ensures
            res@ == touching(coords_of(board.tiles@), *self),
            forall|h: HexCoord|
                #![trigger res@.contains(h)]
                res@.contains(h) <==> (coords_of(board.tiles@).contains(h)
                    && h.spec_vertices().contains(*self)),
    {
        let ghost cs = coords_of(board.tiles@);
        let mut res: Vec<HexCoord> = Vec::new();
        let mut i: usize = 0;
        while i < board.tiles.len()
            invariant
                0 <= i <= board.tiles.len(),
                cs == coords_of(board.tiles@),
                board.corners_fit(),
                res@ == touching(cs.take(i as int), *self),
            decreases board.tiles.len() - i,
        {
            let coord = board.tiles[i].coord;
            assert(cs.take(i + 1).drop_last() =~= cs.take(i as int));
            assert(cs.take(i + 1).last() == coord);
            if has_corner(&coord.vertices(), self) {
                res.push(coord);
            }
            i += 1;
        }
        assert(cs.take(i as int) =~= cs);
        proof {
            lemma_touching_members(cs, *self);
        }
        res
    }
}

impl Board {
    /// No two tiles share a coordinate, and no corner or side is listed twice.
    pub open spec fn wf(self) -> bool {
        &&& coords_of(self.tiles@).no_duplicates()
        &&& self.vertices@.no_duplicates()
        &&& self.edges@.no_duplicates()
    }

    /// The corners of every tile can be computed without overflow.
    pub open spec fn corners_fit(self) -> bool {
        forall|i: int| 0 <= i < self.tiles@.len() ==> (#[trigger] self.tiles@[i]).coord.vertices_fit()
    }

    /// The sides of every tile can be computed without overflow.
    pub open spec fn sides_fit(self) -> bool {
        forall|i: int| 0 <= i < self.tiles@.len() ==> (#[trigger] self.tiles@[i]).coord.edges_fit()
    }

    /// The standard board: a blank tile on every hex within distance two of
    /// the centre, with the corners and sides of those tiles.
    pub fn new() -> (board: Self)
        ensures
            board.wf(),
            coords_of(board.tiles@) == standard_tile_coords(),
            board.tiles@.len() == 19,
            board.vertices@.len() == 54,
            board.edges@.len() == 72,
            forall|h: HexCoord| coords_of(board.tiles@).contains(h) <==> in_board_region(h),
            forall|i: int| 0 <= i < board.tiles@.len() ==> (#[trigger] board.tiles@[i]).is_blank(),
            board.vertices@.to_set() == vertex_union(coords_of(board.tiles@)),
            board.edges@.to_set() == edge_union(coords_of(board.tiles@)),
            board.corners_fit(),
            board.sides_fit(),
    {
        let mut tiles: Vec<Tile> = Vec::new();
        let radius: i32 = 2;
        let mut q: i32 = -radius;
        while q <= radius
            invariant
                radius == 2,
                -radius <= q <= radius + 1,
                forall|i: int| 0 <= i < tiles@.len() ==> (#[trigger] tiles@[i]).is_blank(),
                coords_of(tiles@).no_duplicates(),
                forall|i: int|
                    0 <= i < tiles@.len() ==> in_board_region((#[trigger] tiles@[i]).coord)
                        && tiles@[i].coord.q < q,
                forall|h: HexCoord|
                    in_board_region(h) && h.q < q ==> #[trigger] coords_of(tiles@).contains(h),
                coords_of(tiles@) == scanned((5 * (q + 2)) as nat),
            decreases radius + 1 - q,
        {
            let mut r: i32 = -radius;
            while r <= radius
                invariant
                    radius == 2,
                    -radius <= q <= radius,
                    -radius <= r <= radius + 1,
                    forall|i: int| 0 <= i < tiles@.len() ==> (#[trigger] tiles@[i]).is_blank(),
                    coords_of(tiles@).no_duplicates(),
                    forall|i: int|
                        0 <= i < tiles@.len() ==> in_board_region((#[trigger] tiles@[i]).coord)
                            && before(tiles@[i].coord, q as int, r as int),
                    forall|h: HexCoord|
                        in_board_region(h) && before(h, q as int, r as int)
                            ==> #[trigger] coords_of(tiles@).contains(h),
                    coords_of(tiles@) == scanned((5 * (q + 2) + (r + 2)) as nat),
                decreases radius + 1 - r,
            {
                let ghost k: int = 5 * (q + 2) + (r + 2);
                assert(scan_step(k) == HexCoord { q, r });
                if -radius <= q + r && q + r <= radius {
                    let coord = HexCoord { q, r };
                    let ghost old_coords = coords_of(tiles@);
                    let ghost old_tiles = tiles@;
                    tiles.push(Tile { resource: None, tile_type: None, dice_number: None, coord });
                    assert(coords_of(tiles@) =~= old_coords.push(coord));
                    assert forall|i: int, j: int|
                        0 <= i < tiles@.len() && 0 <= j < tiles@.len() && i != j implies
                        coords_of(tiles@)[i] != coords_of(tiles@)[j] by {
                        if j == old_tiles.len() {
                            assert(old_tiles[i].coord == old_coords[i]);
                        } else if i == old_tiles.len() {
                            assert(old_tiles[j].coord == old_coords[j]);
                        }
                    }
                    assert(coords_of(tiles@)[old_coords.len() as int] == coord);
                }
                r += 1;
            }
            q += 1;
        }
        proof {
            lemma_scanned_all();
        }
        assert forall|h: HexCoord|
            coords_of(tiles@).contains(h) implies in_board_region(h) by {
            let k = choose|k: int| 0 <= k < tiles@.len() && coords_of(tiles@)[k] == h;
            assert(tiles@[k].coord == h);
        }
        let vertices = collect_vertices(&tiles);
        let edges = collect_edges(&tiles);
        proof {
            crate::board_counts::lemma_standard_corner_count();
            crate::board_counts::lemma_standard_side_count();
            vertices@.unique_seq_to_set();
            edges@.unique_seq_to_set();
            assert(tiles@.len() == coords_of(tiles@).len());
        }
        Board { tiles, vertices, edges }
    }

    /// Recomputes the corners from the tiles, stores them, and returns them.
    pub fn generate_vertices(&mut self) -> (res: Vec<VertexCoord>)
        requires
            old(self).corners_fit(),
        ensures
            final(self).tiles@ == old(self).tiles@,
            final(self).edges@ == old(self).edges@,
            final(self).vertices@ == res@,
            res@.no_duplicates(),
            res@.to_set() == vertex_union(coords_of(old(self).tiles@)),
    {
        let vertices = collect_vertices(&self.tiles);
        self.vertices = vertices.clone();
        assert(self.vertices@ =~= vertices@);
        vertices
    }

    /// Recomputes the sides from the tiles, stores them, and returns them.
    pub fn generate_edges(&mut self) -> (res: Vec<EdgeCoord>)
        requires
            old(self).sides_fit(),
        ensures
            final(self).tiles@ == old(self).tiles@,
            final(self).vertices@ == old(self).vertices@,
            final(self).edges@ == res@,
            res@.no_duplicates(),
            res@.to_set() == edge_union(coords_of(old(self).tiles@)),
    {
        let edges = collect_edges(&self.tiles);
        self.edges = edges.clone();
        assert(self.edges@ =~= edges@);
        edges
    }

    /// The tiles adjacent to the tile at `coord`, in counter-clockwise order
    /// starting from the right; an error when no tile stands at `coord`.
    pub fn tile_neighbors(&self, coord: &HexCoord) -> (res: Result<Vec<&Tile>, String>)
        requires
            coords_of(self.tiles@).contains(*coord) ==> coord.neighbors_fit(),
        ensures
            match res {
                Err(e) => !coords_of(self.tiles@).contains(*coord) && e@
                    == "The provided coordinate has no associated hex tile"@,
                Ok(v) => {
                    &&& coords_of(self.tiles@).contains(*coord)
                    &&& v@.map_values(|t: &Tile| *t) == tiles_at(self.tiles@, coord.spec_neighbors())
                    &&& forall|k: int|
                        0 <= k < v@.len() ==> self.tiles@.contains(*v@[k])
                            && coord.spec_neighbors().contains(v@[k].coord)
                    &&& forall|i: int|
                        0 <= i < 6 && coords_of(self.tiles@).contains(
                            #[trigger] coord.spec_neighbors()[i],
                        ) ==> exists|k: int|
                            0 <= k < v@.len() && v@[k].coord == coord.spec_neighbors()[i]
                },
            },
    {
        proof {
            lemma_first_tile(self.tiles@, *coord);
        }
        let center = match find_tile(&self.tiles, coord) {
            Some(i) => i,
            None => {
                return Err("The provided coordinate has no associated hex tile".to_owned());
            },
        };
        let center_tile = &self.tiles[center];
        let neighbor_coords = center_tile.coord.neighbors();
        let ghost ns = neighbor_coords@;
        let mut neighbors: Vec<&Tile> = Vec::new();
        let mut k: usize = 0;
        while k < 6
            invariant
                0 <= k <= 6,
                ns == neighbor_coords@,
                ns == coord.spec_neighbors(),
                neighbors@.map_values(|t: &Tile| *t) == tiles_at(self.tiles@, ns.take(k as int)),
            decreases 6 - k,
        {
            assert(ns.take(k + 1).drop_last() =~= ns.take(k as int));
            assert(ns.take(k + 1).last() == neighbor_coords[k as int]);
            let ghost before = neighbors@;
            match find_tile(&self.tiles, &neighbor_coords[k]) {
                Some(i) => {
                    proof {
                        lemma_first_tile(self.tiles@, neighbor_coords[k as int]);
                    }
                    neighbors.push(&self.tiles[i]);
                    assert(neighbors@.map_values(|t: &Tile| *t) =~= before.map_values(
                        |t: &Tile| *t,
                    ).push(self.tiles@[i as int]));
                },
                None => {},
            }
            k += 1;
        }
        assert(ns.take(6) =~= ns);
        proof {
            let tv = neighbors@.map_values(|t: &Tile| *t);
            lemma_tiles_at_members(self.tiles@, ns);
            assert forall|k: int| 0 <= k < neighbors@.len() implies self.tiles@.contains(
                *neighbors@[k],
            ) && ns.contains(neighbors@[k].coord) by {
                assert(tv[k] == *neighbors@[k]);
            }
            assert forall|i: int|
                0 <= i < 6 && coords_of(self.tiles@).contains(#[trigger] ns[i]) implies exists|
                k: int,
            | 0 <= k < neighbors@.len() && neighbors@[k].coord == ns[i] by {
                assert(ns.contains(ns[i]));
                let k = choose|k: int| 0 <= k < tv.len() && #[trigger] tv[k].coord == ns[i];
                assert(tv[k] == *neighbors@[k]);
            }
        }
        Ok(neighbors)
    }
}

/// The coordinates of the given tiles, in order.
pub open spec fn coords_of(tiles: Seq<Tile>) -> Seq<HexCoord> {
    tiles.map_values(|t: Tile| t.coord)
}

/// The hexes within distance two of the centre: the standard board.
pub open spec fn in_board_region(h: HexCoord) -> bool {
    &&& -2 <= h.q <= 2
    &&& -2 <= h.r <= 2
    &&& -2 <= h.q + h.r <= 2
}

/// The coordinates of the standard board in the order `Board::new` places
/// them: by `q`, then by `r`.
pub open spec fn standard_tile_coords() -> Seq<HexCoord> {
    seq![
        HexCoord { q: -2i32, r: 0i32 },
        HexCoord { q: -2i32, r: 1i32 },
        HexCoord { q: -2i32, r: 2i32 },
        HexCoord { q: -1i32, r: -1i32 },
        HexCoord { q: -1i32, r: 0i32 },
        HexCoord { q: -1i32, r: 1i32 },
        HexCoord { q: -1i32, r: 2i32 },
        HexCoord { q: 0i32, r: -2i32 },
        HexCoord { q: 0i32, r: -1i32 },
        HexCoord { q: 0i32, r: 0i32 },
        HexCoord { q: 0i32, r: 1i32 },
        HexCoord { q: 0i32, r: 2i32 },
        HexCoord { q: 1i32, r: -2i32 },
        HexCoord { q: 1i32, r: -1i32 },
        HexCoord { q: 1i32, r: 0i32 },
        HexCoord { q: 1i32, r: 1i32 },
        HexCoord { q: 2i32, r: -2i32 },
        HexCoord { q: 2i32, r: -1i32 },
        HexCoord { q: 2i32, r: 0i32 },
    ]
}

/// The coordinate visited at step `k` of a scan of the 5 by 5 square of
/// coordinates from -2 to 2, by `q`, then by `r`.
spec fn scan_step(k: int) -> HexCoord {
    HexCoord::at(-2 + k / 5, -2 + k % 5)
}

/// The coordinates of the standard board met in the first `n` steps of the scan.
spec fn scanned(n: nat) -> Seq<HexCoord>
    decreases n,
{
    if n == 0 {
        seq![]
    } else {
        let rest = scanned((n - 1) as nat);
        if in_board_region(scan_step(n - 1)) {
            rest.push(scan_step(n - 1))
        } else {
            rest
        }
    }
}

proof fn lemma_scanned_all()
    ensures
        scanned(25) == standard_tile_coords(),
{
    reveal_with_fuel(scanned, 26);
    assert(scanned(25) =~= standard_tile_coords());
}

/// Whether `h` comes before `(q, r)` when coordinates are ordered by `q`, then by `r`.
pub open spec fn before(h: HexCoord, q: int, r: int) -> bool {
    h.q < q || (h.q == q && h.r < r)
}

/// All corners of the given hexes.
pub open spec fn vertex_union(cs: Seq<HexCoord>) -> Set<VertexCoord>
    decreases cs.len(),
{
    if cs.len() == 0 {
        Set::empty()
    } else {
        vertex_union(cs.drop_last()) + cs.last().spec_vertices().to_set()
    }
}

/// All sides of the given hexes.
pub open spec fn edge_union(cs: Seq<HexCoord>) -> Set<EdgeCoord>
    decreases cs.len(),
{
    if cs.len() == 0 {
        Set::empty()
    } else {
        edge_union(cs.drop_last()) + cs.last().spec_edges().to_set()
    }
}

/// A corner is in the union of the given hexes' corners exactly when one of them has it.
pub proof fn lemma_vertex_union_contains(cs: Seq<HexCoord>, v: VertexCoord)
    ensures
        vertex_union(cs).contains(v) <==> exists|i: int|
            0 <= i < cs.len() && #[trigger] cs[i].spec_vertices().contains(v),
    decreases cs.len(),
{
    if cs.len() > 0 {
        let d = cs.drop_last();
        lemma_vertex_union_contains(d, v);
        if vertex_union(d).contains(v) {
            let i = choose|i: int| 0 <= i < d.len() && #[trigger] d[i].spec_vertices().contains(v);
            assert(cs[i] == d[i]);
        }
        if cs.last().spec_vertices().contains(v) {
            assert(cs[cs.len() - 1].spec_vertices().contains(v));
        }
        if exists|i: int| 0 <= i < cs.len() && #[trigger] cs[i].spec_vertices().contains(v) {
            let i = choose|i: int| 0 <= i < cs.len() && #[trigger] cs[i].spec_vertices().contains(v);
            if i < d.len() {
                assert(d[i] == cs[i]);
            }
        }
    }
}

/// A side is in the union of the given hexes' sides exactly when one of them has it.
pub proof fn lemma_edge_union_contains(cs: Seq<HexCoord>, v: EdgeCoord)
    ensures
        edge_union(cs).contains(v) <==> exists|i: int|
            0 <= i < cs.len() && #[trigger] cs[i].spec_edges().contains(v),
    decreases cs.len(),
{
    if cs.len() > 0 {
        let d = cs.drop_last();
        lemma_edge_union_contains(d, v);
        if edge_union(d).contains(v) {
            let i = choose|i: int| 0 <= i < d.len() && #[trigger] d[i].spec_edges().contains(v);
            assert(cs[i] == d[i]);
        }
        if cs.last().spec_edges().contains(v) {
            assert(cs[cs.len() - 1].spec_edges().contains(v));
        }
        if exists|i: int| 0 <= i < cs.len() && #[trigger] cs[i].spec_edges().contains(v) {
            let i = choose|i: int| 0 <= i < cs.len() && #[trigger] cs[i].spec_edges().contains(v);
            if i < d.len() {
                assert(d[i] == cs[i]);
            }
        }
    }
}

/// The hexes that `touching` keeps are exactly the hexes of `cs` that have
/// `v` as a corner.
pub proof fn lemma_touching_members(cs: Seq<HexCoord>, v: VertexCoord)
    ensures
        forall|h: HexCoord|
            #[trigger] touching(cs, v).contains(h) <==> (cs.contains(h) && h.spec_vertices().contains(
                v,
            )),
    decreases cs.len(),
{
    if cs.len() > 0 {
        let d = cs.drop_last();
        lemma_touching_members(d, v);
        assert(cs =~= d.push(cs.last()));
        assert forall|h: HexCoord|
            #[trigger] touching(cs, v).contains(h) <==> (cs.contains(h)
                && h.spec_vertices().contains(v)) by {
            assert(touching(d, v).contains(h) <==> (d.contains(h) && h.spec_vertices().contains(v)));
        }
    }
}

/// Every tile that `tiles_at` yields is one of `tiles`, standing at one of
/// `cs`; and every coordinate of `cs` that holds a tile yields a tile there.
pub proof fn lemma_tiles_at_members(tiles: Seq<Tile>, cs: Seq<HexCoord>)
    ensures
        forall|k: int|
            0 <= k < tiles_at(tiles, cs).len() ==> tiles.contains(#[trigger] tiles_at(tiles, cs)[k])
                && cs.contains(tiles_at(tiles, cs)[k].coord),
        forall|c: HexCoord|
            cs.contains(c) && #[trigger] coords_of(tiles).contains(c) ==> exists|k: int|
                0 <= k < tiles_at(tiles, cs).len() && #[trigger] tiles_at(tiles, cs)[k].coord == c,
    decreases cs.len(),
{
    if cs.len() > 0 {
        let d = cs.drop_last();
        let last = cs.last();
        lemma_tiles_at_members(tiles, d);
        lemma_first_tile(tiles, last);
        assert(cs =~= d.push(last));
        let rest = tiles_at(tiles, d);
        let res = tiles_at(tiles, cs);
        assert forall|k: int| 0 <= k < res.len() implies tiles.contains(#[trigger] res[k])
            && cs.contains(res[k].coord) by {
            if k < rest.len() {
                assert(res[k] == rest[k]);
                assert(d.contains(rest[k].coord));
            } else {
                let i = first_tile(tiles, last)->0;
                assert(res[k] == tiles[i]);
            }
        }
        assert forall|c: HexCoord|
            cs.contains(c) && #[trigger] coords_of(tiles).contains(c) implies exists|k: int|
                0 <= k < res.len() && #[trigger] res[k].coord == c by {
            if d.contains(c) {
                let k = choose|k: int| 0 <= k < rest.len() && #[trigger] rest[k].coord == c;
                assert(res[k] == rest[k]);
            } else {
                assert(c == last);
                lemma_first_tile(tiles, c);
                let i = first_tile(tiles, last)->0;
                assert(res[rest.len() as int] == tiles[i]);
            }
        }
    }
}

/// The index of the first tile placed at `c`, if any.
pub open spec fn first_tile(tiles: Seq<Tile>, c: HexCoord) -> Option<int>
    decreases tiles.len(),
{
    if tiles.len() == 0 {
        None
    } else {
        match first_tile(tiles.drop_last(), c) {
            Some(i) => Some(i),
            None => if tiles.last().coord == c {
                Some(tiles.len() - 1)
            } else {
                None
            },
        }
    }
}

/// The tiles found at the coordinates `cs`, in that order, skipping
/// coordinates that hold no tile.
pub open spec fn tiles_at(tiles: Seq<Tile>, cs: Seq<HexCoord>) -> Seq<Tile>
    decreases cs.len(),
{
    if cs.len() == 0 {
        seq![]
    } else {
        let rest = tiles_at(tiles, cs.drop_last());
        match first_tile(tiles, cs.last()) {
            Some(i) => rest.push(tiles[i]),
            None => rest,
        }
    }
}

/// The hexes among `cs`, in that order, that have `v` as a corner.
pub open spec fn touching(cs: Seq<HexCoord>, v: VertexCoord) -> Seq<HexCoord>
    decreases cs.len(),
{
    if cs.len() == 0 {
        seq![]
    } else {
        let rest = touching(cs.drop_last(), v);
        if cs.last().spec_vertices().contains(v) {
            rest.push(cs.last())
        } else {
            rest
        }
    }
}

/// `first_tile` finds the first tile at `c`, and finds one exactly when some
/// tile stands at `c`.
pub proof fn lemma_first_tile(tiles: Seq<Tile>, c: HexCoord)
    ensures
        first_tile(tiles, c) is Some <==> coords_of(tiles).contains(c),
        match first_tile(tiles, c) {
            Some(i) => 0 <= i < tiles.len() && tiles[i].coord == c && forall|j: int|
                0 <= j < i ==> tiles[j].coord != c,
            None => forall|j: int| 0 <= j < tiles.len() ==> tiles[j].coord != c,
        },
    decreases tiles.len(),
{
    if tiles.len() > 0 {
        let d = tiles.drop_last();
        lemma_first_tile(d, c);
        assert(forall|j: int| 0 <= j < d.len() ==> d[j] == tiles[j]);
        if coords_of(tiles).contains(c) {
            let k = choose|k: int| 0 <= k < tiles.len() && coords_of(tiles)[k] == c;
            assert(tiles[k].coord == c);
        }
        if let Some(i) = first_tile(tiles, c) {
            assert(coords_of(tiles)[i] == c);
        }
    }
}

proof fn lemma_first_tile_prefix(tiles: Seq<Tile>, k: int, c: HexCoord)
    requires
        0 <= k <= tiles.len(),
        first_tile(tiles.take(k), c) is Some,
    ensures
        first_tile(tiles, c) == first_tile(tiles.take(k), c),
    decreases tiles.len(),
{
    if k < tiles.len() {
        assert(tiles.drop_last().take(k) =~= tiles.take(k));
        lemma_first_tile_prefix(tiles.drop_last(), k, c);
    } else {
        assert(tiles.take(k) =~= tiles);
    }
}

/// Whether `v` is one of the six corners in `corners`.
fn has_corner(corners: &[VertexCoord; 6], v: &VertexCoord) -> (res: bool)
    ensures
        res == corners@.contains(*v),
{
    let mut j: usize = 0;
    while j < 6
        invariant
            0 <= j <= 6,
            forall|k: int| 0 <= k < j ==> corners@[k] != *v,
        decreases 6 - j,
    {
        if corners[j] == *v {
            return true;
        }
        j += 1;
    }
    false
}

/// Whether `v` occurs in `list`.
fn contains_vertex(list: &Vec<VertexCoord>, v: &VertexCoord) -> (res: bool)
    ensures
        res == list@.contains(*v),
{
    let mut j: usize = 0;
    while j < list.len()
        invariant
            0 <= j <= list.len(),
            forall|k: int| 0 <= k < j ==> list@[k] != *v,
        decreases list.len() - j,
    {
        if list[j] == *v {
            return true;
        }
        j += 1;
    }
    false
}

/// Whether `e` occurs in `list`.
fn contains_edge(list: &Vec<EdgeCoord>, e: &EdgeCoord) -> (res: bool)
    ensures
        res == list@.contains(*e),
{
    let mut j: usize = 0;
    while j < list.len()
        invariant
            0 <= j <= list.len(),
            forall|k: int| 0 <= k < j ==> list@[k] != *e,
        decreases list.len() - j,
    {
        if list[j] == *e {
            return true;
        }
        j += 1;
    }
    false
}

/// The index of the first tile placed at `c`, if any.
fn find_tile(tiles: &Vec<Tile>, c: &HexCoord) -> (res: Option<usize>)
    ensures
        match res {
            Some(i) => first_tile(tiles@, *c) == Some(i as int),
            None => first_tile(tiles@, *c) is None,
        },
{
    let mut i: usize = 0;
    while i < tiles.len()
        invariant
            0 <= i <= tiles.len(),
            first_tile(tiles@.take(i as int), *c) is None,
        decreases tiles.len() - i,
    {
        assert(tiles@.take(i + 1).drop_last() =~= tiles@.take(i as int));
        if tiles[i].coord == *c {
            proof {
                lemma_first_tile_prefix(tiles@, i + 1, *c);
            }
            return Some(i);
        }
        i += 1;
    }
    assert(tiles@.take(i as int) =~= tiles@);
    None
}

/// Every corner of every tile, each listed once.
fn collect_vertices(tiles: &Vec<Tile>) -> (res: Vec<VertexCoord>)
    requires
        forall|i: int| 0 <= i < tiles@.len() ==> (#[trigger] tiles@[i]).coord.vertices_fit(),
    ensures
        res@.no_duplicates(),
        res@.to_set() == vertex_union(coords_of(tiles@)),
{
    let ghost cs = coords_of(tiles@);
    let mut res: Vec<VertexCoord> = Vec::new();
    let mut i: usize = 0;
    while i < tiles.len()
        invariant
            0 <= i <= tiles.len(),
            cs == coords_of(tiles@),
            forall|k: int| 0 <= k < tiles@.len() ==> (#[trigger] tiles@[k]).coord.vertices_fit(),
            res@.no_duplicates(),
            forall|v: VertexCoord| res@.contains(v) <==> vertex_union(cs.take(i as int)).contains(v),
        decreases tiles.len() - i,
    {
        let corners = tiles[i].coord.vertices();
        let ghost hv = corners@;
        assert(cs.take(i + 1).drop_last() =~= cs.take(i as int));
        assert(cs.take(i + 1).last() == tiles@[i as int].coord);
        let mut j: usize = 0;
        while j < 6
            invariant
                0 <= j <= 6,
                hv == corners@,
                hv.len() == 6,
                res@.no_duplicates(),
                forall|v: VertexCoord|
                    res@.contains(v) <==> (vertex_union(cs.take(i as int)).contains(v)
                        || hv.take(j as int).contains(v)),
            decreases 6 - j,
        {
            let v = corners[j];
            assert(hv.take(j + 1) =~= hv.take(j as int).push(v));
            if !contains_vertex(&res, &v) {
                res.push(v);
            }
            j += 1;
        }
        assert(hv.take(6) =~= hv);
        i += 1;
    }
    assert(cs.take(i as int) =~= cs);
    assert(res@.to_set() =~= vertex_union(cs));
    res
}

/// Every side of every tile, each listed once.
fn collect_edges(tiles: &Vec<Tile>) -> (res: Vec<EdgeCoord>)
    requires
        forall|i: int| 0 <= i < tiles@.len() ==> (#[trigger] tiles@[i]).coord.edges_fit(),
    ensures
        res@.no_duplicates(),
        res@.to_set() == edge_union(coords_of(tiles@)),
{
    let ghost cs = coords_of(tiles@);
    let mut res: Vec<EdgeCoord> = Vec::new();
    let mut i: usize = 0;
    while i < tiles.len()
        invariant
            0 <= i <= tiles.len(),
            cs == coords_of(tiles@),
            forall|k: int| 0 <= k < tiles@.len() ==> (#[trigger] tiles@[k]).coord.edges_fit(),
            res@.no_duplicates(),
            forall|e: EdgeCoord| res@.contains(e) <==> edge_union(cs.take(i as int)).contains(e),
        decreases tiles.len() - i,
    {
        let sides = tiles[i].coord.edges();
        let ghost he = sides@;
        assert(cs.take(i + 1).drop_last() =~= cs.take(i as int));
        assert(cs.take(i + 1).last() == tiles@[i as int].coord);
        let mut j: usize = 0;
        while j < 6
            invariant
                0 <= j <= 6,
                he == sides@,
                he.len() == 6,
                res@.no_duplicates(),
                forall|e: EdgeCoord|
                    res@.contains(e) <==> (edge_union(cs.take(i as int)).contains(e)
                        || he.take(j as int).contains(e)),
            decreases 6 - j,
        {
            let e = sides[j];
            assert(he.take(j + 1) =~= he.take(j as int).push(e));
            if !contains_edge(&res, &e) {
                res.push(e);
            }
            j += 1;
        }
        assert(he.take(6) =~= he);
        i += 1;
    }
    assert(cs.take(i as int) =~= cs);
    assert(res@.to_set() =~= edge_union(cs));
    res
}

} // verus!
