use vstd::prelude::*;

use crate::board::{coords_of, touching, Board, EdgeCoord, HexCoord, VertexCoord};

verus! {

/// A sequence of six elements holds exactly the six listed elements.
proof fn lemma_six_to_set<A>(s: Seq<A>)
    requires
        s.len() == 6,
    ensures
        s.to_set() == set![s[0], s[1], s[2], s[3], s[4], s[5]],
{
    let t = set![s[0], s[1], s[2], s[3], s[4], s[5]];
    assert forall|x: A| s.to_set().contains(x) implies t.contains(x) by {
        let k = choose|k: int| 0 <= k < s.len() && s[k] == x;
        assert(0 <= k < 6);
    }
    assert forall|x: A| t.contains(x) implies s.to_set().contains(x) by {
        if x == s[0] {
            assert(s[0] == x);
        } else if x == s[1] {
            assert(s[1] == x);
        } else if x == s[2] {
            assert(s[2] == x);
        } else if x == s[3] {
            assert(s[3] == x);
        } else if x == s[4] {
            assert(s[4] == x);
        } else {
            assert(s[5] == x);
        }
    }
    assert(s.to_set() =~= t);
}

/// The opposite direction of a neighbour direction.
pub open spec fn opposite(i: int) -> int {
    (i + 3) % 6
}

/// Adjacency is symmetric: going to the `i`-th neighbour and then in the
/// opposite direction leads back to the starting hex.
pub proof fn lemma_neighbor_symmetric(h: HexCoord, i: int)
    requires
        0 <= i < 6,
        h.neighbors_fit(),
        h.spec_neighbors()[i].neighbors_fit(),
    ensures
        h.spec_neighbors()[i].spec_neighbors()[opposite(i)] == h,
{
}

/// Two adjacent hexes share exactly two corners.
pub proof fn lemma_neighbors_share_two_corners(h: HexCoord, i: int)
    requires
        0 <= i < 6,
        h.neighbors_fit(),
        h.vertices_fit(),
        h.spec_neighbors()[i].vertices_fit(),
    ensures
        h.spec_vertices().to_set().intersect(h.spec_neighbors()[i].spec_vertices().to_set()).len()
            == 2,
{
    let n = h.spec_neighbors()[i];
    let hv = h.spec_vertices();
    let nv = n.spec_vertices();
    lemma_six_to_set(hv);
    lemma_six_to_set(nv);
    let (a, b) = if i == 0 {
        (1int, 2int)
    } else if i == 1 {
        (0int, 1int)
    } else if i == 2 {
        (0int, 5int)
    } else if i == 3 {
        (4int, 5int)
    } else if i == 4 {
        (3int, 4int)
    } else {
        (2int, 3int)
    };
    assert(hv.to_set().intersect(nv.to_set()) =~= set![hv[a], hv[b]]);
}

/// Two adjacent hexes share exactly one side.
pub proof fn lemma_neighbors_share_one_side(h: HexCoord, i: int)
    requires
        0 <= i < 6,
        h.neighbors_fit(),
        h.edges_fit(),
        h.spec_neighbors()[i].edges_fit(),
    ensures
        h.spec_edges().to_set().intersect(h.spec_neighbors()[i].spec_edges().to_set()).len() == 1,
{
    let n = h.spec_neighbors()[i];
    let he = h.spec_edges();
    let ne = n.spec_edges();
    lemma_six_to_set(he);
    lemma_six_to_set(ne);
    let c = if i == 0 {
        1int
    } else if i == 1 {
        0int
    } else if i == 2 {
        5int
    } else if i == 3 {
        4int
    } else if i == 4 {
        3int
    } else {
        2int
    };
    assert(he.to_set().intersect(ne.to_set()) =~= set![he[c]]);
}

/// The hexes (on which the corner computation does not overflow) that have `v` as a corner.
pub open spec fn hexes_with_corner(v: VertexCoord) -> Set<HexCoord> {
    Set::new(|h: HexCoord| h.vertices_fit() && h.spec_vertices().contains(v))
}

/// The hexes (on which the side computation does not overflow) that have `e` as a side.
pub open spec fn hexes_with_side(e: EdgeCoord) -> Set<HexCoord> {
    Set::new(|h: HexCoord| h.edges_fit() && h.spec_edges().contains(e))
}

/// The only hexes that can have `v` as a corner.
spec fn corner_candidates(v: VertexCoord) -> Set<HexCoord> {
    let x = v.x as int;
    let y = v.y as int;
    if y % 2 == 1 {
        let r0 = (y + 1) / 2;
        let r1 = (y - 1) / 2;
        set![
            HexCoord::at((x - r0) / 2, r0),
            HexCoord::at((x - 1 - r1) / 2, r1),
            HexCoord::at((x + 1 - r1) / 2, r1),
        ]
    } else {
        let r0 = y / 2;
        let r1 = (y - 2) / 2;
        set![
            HexCoord::at((x - 1 - r0) / 2, r0),
            HexCoord::at((x + 1 - r0) / 2, r0),
            HexCoord::at((x - r1) / 2, r1),
        ]
    }
}

/// The only hexes that can have `e` as a side.
spec fn side_candidates(e: EdgeCoord) -> Set<HexCoord> {
    let x = e.x as int;
    let y = e.y as int;
    if y % 4 == 1 {
        let r = (y - 1) / 4;
        set![HexCoord::at((x - 2 - 2 * r) / 4, r), HexCoord::at((x + 2 - 2 * r) / 4, r)]
    } else {
        let r = (y + 1) / 4;
        if (x - 1 - 2 * r) % 4 == 0 {
            set![HexCoord::at((x - 1 - 2 * r) / 4, r), HexCoord::at((x + 3 - 2 * r) / 4, r - 1)]
        } else {
            set![HexCoord::at((x + 1 - 2 * r) / 4, r), HexCoord::at((x + 1 - 2 * r) / 4, r - 1)]
        }
    }
}

/// Any corner is a corner of at most three hexes.
pub proof fn lemma_corner_of_at_most_three_hexes(v: VertexCoord)
    ensures
        hexes_with_corner(v).finite(),
        hexes_with_corner(v).len() <= 3,
{
    let s = hexes_with_corner(v);
    let c = corner_candidates(v);
    assert forall|h: HexCoord| s.contains(h) implies c.contains(h) by {
        let k = choose|k: int| 0 <= k < 6 && h.spec_vertices()[k] == v;
        let x = v.x as int;
        let y = v.y as int;
        let q = h.q as int;
        let r = h.r as int;
        if k == 0 {
            assert(x == 2 * q + r && y == 2 * r - 1);
            assert((y + 1) / 2 == r);
            assert((x - r) / 2 == q);
        } else if k == 1 {
            assert(x == 2 * q + r + 1 && y == 2 * r);
            assert(y / 2 == r);
            assert((x - 1 - r) / 2 == q);
        } else if k == 2 {
            assert(x == 2 * q + r + 1 && y == 2 * r + 1);
            assert((y - 1) / 2 == r);
            assert((x - 1 - r) / 2 == q);
        } else if k == 3 {
            assert(x == 2 * q + r && y == 2 * r + 2);
            assert((y - 2) / 2 == r);
            assert((x - r) / 2 == q);
        } else if k == 4 {
            assert(x == 2 * q + r - 1 && y == 2 * r + 1);
            assert((y - 1) / 2 == r);
            assert((x + 1 - r) / 2 == q);
        } else {
            assert(x == 2 * q + r - 1 && y == 2 * r);
            assert(y / 2 == r);
            assert((x + 1 - r) / 2 == q);
        }
    }
    vstd::set_lib::lemma_len_subset(s, c);
}

/// Any side is a side of at most two hexes.
pub proof fn lemma_side_of_at_most_two_hexes(e: EdgeCoord)
    ensures
        hexes_with_side(e).finite(),
        hexes_with_side(e).len() <= 2,
{
    let s = hexes_with_side(e);
    let c = side_candidates(e);
    assert forall|h: HexCoord| s.contains(h) implies c.contains(h) by {
        let k = choose|k: int| 0 <= k < 6 && h.spec_edges()[k] == e;
        let x = e.x as int;
        let y = e.y as int;
        let q = h.q as int;
        let r = h.r as int;
        if k == 0 {
            assert(x == 4 * q + 2 * r + 1 && y == 4 * r - 1);
            assert((y + 1) / 4 == r);
            assert((x - 1 - 2 * r) % 4 == 0);
            assert((x - 1 - 2 * r) / 4 == q);
        } else if k == 1 {
            assert(x == 4 * q + 2 * r + 2 && y == 4 * r + 1);
            assert((y - 1) / 4 == r);
            assert((x - 2 - 2 * r) / 4 == q);
        } else if k == 2 {
            assert(x == 4 * q + 2 * r + 1 && y == 4 * r + 3);
            assert((y + 1) / 4 == r + 1);
            assert((x - 1 - 2 * (r + 1)) % 4 == 2);
            assert((x + 1 - 2 * (r + 1)) / 4 == q);
        } else if k == 3 {
            assert(x == 4 * q + 2 * r - 1 && y == 4 * r + 3);
            assert((y + 1) / 4 == r + 1);
            assert((x - 1 - 2 * (r + 1)) % 4 == 0);
            assert((x + 3 - 2 * (r + 1)) / 4 == q);
        } else if k == 4 {
            assert(x == 4 * q + 2 * r - 2 && y == 4 * r + 1);
            assert((y - 1) / 4 == r);
            assert((x + 2 - 2 * r) / 4 == q);
        } else {
            assert(x == 4 * q + 2 * r - 1 && y == 4 * r - 1);
            assert((y + 1) / 4 == r);
            assert((x - 1 - 2 * r) % 4 == 2);
            assert((x + 1 - 2 * r) / 4 == q);
        }
    }
    vstd::set_lib::lemma_len_subset(s, c);
}

/// What `touching` keeps: hexes of `cs` with `v` as a corner, none twice if `cs`
/// has none twice.
proof fn lemma_touching(cs: Seq<HexCoord>, v: VertexCoord)
    ensures
        forall|k: int|
            0 <= k < touching(cs, v).len() ==> cs.contains(#[trigger] touching(cs, v)[k])
                && touching(cs, v)[k].spec_vertices().contains(v),
        cs.no_duplicates() ==> touching(cs, v).no_duplicates(),
    decreases cs.len(),
{
    if cs.len() > 0 {
        let d = cs.drop_last();
        lemma_touching(d, v);
        let t = touching(d, v);
        assert forall|k: int| 0 <= k < t.len() implies cs.contains(#[trigger] t[k]) by {
            let j = choose|j: int| 0 <= j < d.len() && d[j] == t[k];
            assert(cs[j] == t[k]);
        }
        if cs.no_duplicates() {
            assert(d.no_duplicates()) by {
                assert forall|i: int, j: int|
                    0 <= i < d.len() && 0 <= j < d.len() && i != j implies d[i] != d[j] by {
                    assert(d[i] == cs[i] && d[j] == cs[j]);
                }
            }
            assert(!d.contains(cs.last())) by {
                if d.contains(cs.last()) {
                    let j = choose|j: int| 0 <= j < d.len() && d[j] == cs.last();
                    assert(cs[j] == cs[cs.len() - 1]);
                }
            }
        }
    }
}

/// On a board where no coordinate holds two tiles, any corner belongs to at
/// most three of the board's tiles, so `adjacent_hexes` returns at most three hexes.
pub proof fn lemma_board_corner_of_at_most_three_tiles(board: Board, v: VertexCoord)
    requires
        board.wf(),
        board.corners_fit(),
    ensures
        touching(coords_of(board.tiles@), v).len() <= 3,
{
    let cs = coords_of(board.tiles@);
    let t = touching(cs, v);
    lemma_touching(cs, v);
    t.unique_seq_to_set();
    assert forall|h: HexCoord| t.to_set().contains(h) implies hexes_with_corner(v).contains(h) by {
        let k = choose|k: int| 0 <= k < t.len() && t[k] == h;
        assert(cs.contains(t[k]));
        let j = choose|j: int| 0 <= j < cs.len() && cs[j] == h;
        assert(board.tiles@[j].coord == h);
    }
    lemma_corner_of_at_most_three_hexes(v);
    vstd::set_lib::lemma_len_subset(t.to_set(), hexes_with_corner(v));
}

} // verus!
