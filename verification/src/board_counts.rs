use vstd::prelude::*;

use crate::board::{
    edge_union, lemma_edge_union_contains, lemma_vertex_union_contains, standard_tile_coords,
    vertex_union, EdgeCoord, HexCoord, VertexCoord,
};

verus! {

/// The corners of the standard board, each listed once.
spec fn standard_corners() -> Set<VertexCoord> {
    set![
        VertexCoord { x: -4i32, y: -1i32 },
        VertexCoord { x: -3i32, y: 0i32 },
        VertexCoord { x: -3i32, y: 1i32 },
        VertexCoord { x: -4i32, y: 2i32 },
        VertexCoord { x: -5i32, y: 1i32 },
        VertexCoord { x: -5i32, y: 0i32 },
        VertexCoord { x: -2i32, y: 2i32 },
        VertexCoord { x: -2i32, y: 3i32 },
        VertexCoord { x: -3i32, y: 4i32 },
        VertexCoord { x: -4i32, y: 3i32 },
        VertexCoord { x: -1i32, y: 4i32 },
        VertexCoord { x: -1i32, y: 5i32 },
        VertexCoord { x: -2i32, y: 6i32 },
        VertexCoord { x: -3i32, y: 5i32 },
        VertexCoord { x: -3i32, y: -3i32 },
        VertexCoord { x: -2i32, y: -2i32 },
        VertexCoord { x: -2i32, y: -1i32 },
        VertexCoord { x: -4i32, y: -2i32 },
        VertexCoord { x: -1i32, y: 0i32 },
        VertexCoord { x: -1i32, y: 1i32 },
        VertexCoord { x: 0i32, y: 2i32 },
        VertexCoord { x: 0i32, y: 3i32 },
        VertexCoord { x: 1i32, y: 4i32 },
        VertexCoord { x: 1i32, y: 5i32 },
        VertexCoord { x: 0i32, y: 6i32 },
        VertexCoord { x: -2i32, y: -5i32 },
        VertexCoord { x: -1i32, y: -4i32 },
        VertexCoord { x: -1i32, y: -3i32 },
        VertexCoord { x: -3i32, y: -4i32 },
        VertexCoord { x: 0i32, y: -2i32 },
        VertexCoord { x: 0i32, y: -1i32 },
        VertexCoord { x: 1i32, y: 0i32 },
        VertexCoord { x: 1i32, y: 1i32 },
        VertexCoord { x: 2i32, y: 2i32 },
        VertexCoord { x: 2i32, y: 3i32 },
        VertexCoord { x: 3i32, y: 4i32 },
        VertexCoord { x: 3i32, y: 5i32 },
        VertexCoord { x: 2i32, y: 6i32 },
        VertexCoord { x: 0i32, y: -5i32 },
        VertexCoord { x: 1i32, y: -4i32 },
        VertexCoord { x: 1i32, y: -3i32 },
        VertexCoord { x: 2i32, y: -2i32 },
        VertexCoord { x: 2i32, y: -1i32 },
        VertexCoord { x: 3i32, y: 0i32 },
        VertexCoord { x: 3i32, y: 1i32 },
        VertexCoord { x: 4i32, y: 2i32 },
        VertexCoord { x: 4i32, y: 3i32 },
        VertexCoord { x: 2i32, y: -5i32 },
        VertexCoord { x: 3i32, y: -4i32 },
        VertexCoord { x: 3i32, y: -3i32 },
        VertexCoord { x: 4i32, y: -2i32 },
        VertexCoord { x: 4i32, y: -1i32 },
        VertexCoord { x: 5i32, y: 0i32 },
        VertexCoord { x: 5i32, y: 1i32 },
    ]
}

/// Every corner of every standard tile is listed.
proof fn lemma_corners_listed()
    ensures
        forall|i: int, k: int|
            0 <= i < standard_tile_coords().len() && 0 <= k < 6 ==> #[trigger] standard_corners().contains(
                standard_tile_coords()[i].spec_vertices()[k],
            ),
{
    let cs = standard_tile_coords();
    let s = standard_corners();
    assert forall|i: int, k: int| 0 <= i < cs.len() && 0 <= k < 6 implies s.contains(
        cs[i].spec_vertices()[k],
    ) by {
        if i == 0 {
            assert(cs[0] == HexCoord { q: -2i32, r: 0i32 });
        } else if i == 1 {
            assert(cs[1] == HexCoord { q: -2i32, r: 1i32 });
        } else if i == 2 {
            assert(cs[2] == HexCoord { q: -2i32, r: 2i32 });
        } else if i == 3 {
            assert(cs[3] == HexCoord { q: -1i32, r: -1i32 });
        } else if i == 4 {
            assert(cs[4] == HexCoord { q: -1i32, r: 0i32 });
        } else if i == 5 {
            assert(cs[5] == HexCoord { q: -1i32, r: 1i32 });
        } else if i == 6 {
            assert(cs[6] == HexCoord { q: -1i32, r: 2i32 });
        } else if i == 7 {
            assert(cs[7] == HexCoord { q: 0i32, r: -2i32 });
        } else if i == 8 {
            assert(cs[8] == HexCoord { q: 0i32, r: -1i32 });
        } else if i == 9 {
            assert(cs[9] == HexCoord { q: 0i32, r: 0i32 });
        } else if i == 10 {
            assert(cs[10] == HexCoord { q: 0i32, r: 1i32 });
        } else if i == 11 {
            assert(cs[11] == HexCoord { q: 0i32, r: 2i32 });
        } else if i == 12 {
            assert(cs[12] == HexCoord { q: 1i32, r: -2i32 });
        } else if i == 13 {
            assert(cs[13] == HexCoord { q: 1i32, r: -1i32 });
        } else if i == 14 {
            assert(cs[14] == HexCoord { q: 1i32, r: 0i32 });
        } else if i == 15 {
            assert(cs[15] == HexCoord { q: 1i32, r: 1i32 });
        } else if i == 16 {
            assert(cs[16] == HexCoord { q: 2i32, r: -2i32 });
        } else if i == 17 {
            assert(cs[17] == HexCoord { q: 2i32, r: -1i32 });
        } else if i == 18 {
            assert(cs[18] == HexCoord { q: 2i32, r: 0i32 });
        }
    }

}

/// Every listed corner belongs to a standard tile.
proof fn lemma_listed_corners_found()
    ensures
        forall|v: VertexCoord| standard_corners().contains(v) ==> exists|i: int|
            0 <= i < standard_tile_coords().len() && #[trigger] standard_tile_coords()[i].spec_vertices().contains(v),
{
    let cs = standard_tile_coords();
    let s = standard_corners();
    assert forall|v: VertexCoord| s.contains(v) implies exists|i: int|
        0 <= i < cs.len() && #[trigger] cs[i].spec_vertices().contains(v) by {
        if v == (VertexCoord { x: -4i32, y: -1i32 }) {
            assert(cs[0].spec_vertices()[0] == v);
            assert(cs[0].spec_vertices().contains(v));
        } else if v == (VertexCoord { x: -3i32, y: 0i32 }) {
            assert(cs[0].spec_vertices()[1] == v);
            assert(cs[0].spec_vertices().contains(v));
        } else if v == (VertexCoord { x: -3i32, y: 1i32 }) {
            assert(cs[0].spec_vertices()[2] == v);
            assert(cs[0].spec_vertices().contains(v));
        } else if v == (VertexCoord { x: -4i32, y: 2i32 }) {
            assert(cs[0].spec_vertices()[3] == v);
            assert(cs[0].spec_vertices().contains(v));
        } else if v == (VertexCoord { x: -5i32, y: 1i32 }) {
            assert(cs[0].spec_vertices()[4] == v);
            assert(cs[0].spec_vertices().contains(v));
        } else if v == (VertexCoord { x: -5i32, y: 0i32 }) {
            assert(cs[0].spec_vertices()[5] == v);
            assert(cs[0].spec_vertices().contains(v));
        } else if v == (VertexCoord { x: -2i32, y: 2i32 }) {
            assert(cs[1].spec_vertices()[1] == v);
            assert(cs[1].spec_vertices().contains(v));
        } else if v == (VertexCoord { x: -2i32, y: 3i32 }) {
            assert(cs[1].spec_vertices()[2] == v);
            assert(cs[1].spec_vertices().contains(v));
        } else if v == (VertexCoord { x: -3i32, y: 4i32 }) {
            assert(cs[1].spec_vertices()[3] == v);
            assert(cs[1].spec_vertices().contains(v));
        } else if v == (VertexCoord { x: -4i32, y: 3i32 }) {
            assert(cs[1].spec_vertices()[4] == v);
            assert(cs[1].spec_vertices().contains(v));
        } else if v == (VertexCoord { x: -1i32, y: 4i32 }) {
            assert(cs[2].spec_vertices()[1] == v);
            assert(cs[2].spec_vertices().contains(v));
        } else if v == (VertexCoord { x: -1i32, y: 5i32 }) {
            assert(cs[2].spec_vertices()[2] == v);
            assert(cs[2].spec_vertices().contains(v));
        } else if v == (VertexCoord { x: -2i32, y: 6i32 }) {
            assert(cs[2].spec_vertices()[3] == v);
            assert(cs[2].spec_vertices().contains(v));
        } else if v == (VertexCoord { x: -3i32, y: 5i32 }) {
            assert(cs[2].spec_vertices()[4] == v);
            assert(cs[2].spec_vertices().contains(v));
        } else if v == (VertexCoord { x: -3i32, y: -3i32 }) {
            assert(cs[3].spec_vertices()[0] == v);
            assert(cs[3].spec_vertices().contains(v));
        } else if v == (VertexCoord { x: -2i32, y: -2i32 }) {
            assert(cs[3].spec_vertices()[1] == v);
            assert(cs[3].spec_vertices().contains(v));
        } else if v == (VertexCoord { x: -2i32, y: -1i32 }) {
            assert(cs[3].spec_vertices()[2] == v);
            assert(cs[3].spec_vertices().contains(v));
        } else if v == (VertexCoord { x: -4i32, y: -2i32 }) {
            assert(cs[3].spec_vertices()[5] == v);
            assert(cs[3].spec_vertices().contains(v));
        } else if v == (VertexCoord { x: -1i32, y: 0i32 }) {
            assert(cs[4].spec_vertices()[1] == v);
            assert(cs[4].spec_vertices().contains(v));
        } else if v == (VertexCoord { x: -1i32, y: 1i32 }) {
            assert(cs[4].spec_vertices()[2] == v);
            assert(cs[4].spec_vertices().contains(v));
        } else if v == (VertexCoord { x: 0i32, y: 2i32 }) {
            assert(cs[5].spec_vertices()[1] == v);
            assert(cs[5].spec_vertices().contains(v));
        } else if v == (VertexCoord { x: 0i32, y: 3i32 }) {
            assert(cs[5].spec_vertices()[2] == v);
            assert(cs[5].spec_vertices().contains(v));
        } else if v == (VertexCoord { x: 1i32, y: 4i32 }) {
            assert(cs[6].spec_vertices()[1] == v);
            assert(cs[6].spec_vertices().contains(v));
        } else if v == (VertexCoord { x: 1i32, y: 5i32 }) {
            assert(cs[6].spec_vertices()[2] == v);
            assert(cs[6].spec_vertices().contains(v));
        } else if v == (VertexCoord { x: 0i32, y: 6i32 }) {
            assert(cs[6].spec_vertices()[3] == v);
            assert(cs[6].spec_vertices().contains(v));
        } else if v == (VertexCoord { x: -2i32, y: -5i32 }) {
            assert(cs[7].spec_vertices()[0] == v);
            assert(cs[7].spec_vertices().contains(v));
        } else if v == (VertexCoord { x: -1i32, y: -4i32 }) {
            assert(cs[7].spec_vertices()[1] == v);
            assert(cs[7].spec_vertices().contains(v));
        } else if v == (VertexCoord { x: -1i32, y: -3i32 }) {
            assert(cs[7].spec_vertices()[2] == v);
            assert(cs[7].spec_vertices().contains(v));
        } else if v == (VertexCoord { x: -3i32, y: -4i32 }) {
            assert(cs[7].spec_vertices()[5] == v);
            assert(cs[7].spec_vertices().contains(v));
        } else if v == (VertexCoord { x: 0i32, y: -2i32 }) {
            assert(cs[8].spec_vertices()[1] == v);
            assert(cs[8].spec_vertices().contains(v));
        } else if v == (VertexCoord { x: 0i32, y: -1i32 }) {
            assert(cs[8].spec_vertices()[2] == v);
            assert(cs[8].spec_vertices().contains(v));
        } else if v == (VertexCoord { x: 1i32, y: 0i32 }) {
            assert(cs[9].spec_vertices()[1] == v);
            assert(cs[9].spec_vertices().contains(v));
        } else if v == (VertexCoord { x: 1i32, y: 1i32 }) {
            assert(cs[9].spec_vertices()[2] == v);
            assert(cs[9].spec_vertices().contains(v));
        } else if v == (VertexCoord { x: 2i32, y: 2i32 }) {
            assert(cs[10].spec_vertices()[1] == v);
            assert(cs[10].spec_vertices().contains(v));
        } else if v == (VertexCoord { x: 2i32, y: 3i32 }) {
            assert(cs[10].spec_vertices()[2] == v);
            assert(cs[10].spec_vertices().contains(v));
        } else if v == (VertexCoord { x: 3i32, y: 4i32 }) {
            assert(cs[11].spec_vertices()[1] == v);
            assert(cs[11].spec_vertices().contains(v));
        } else if v == (VertexCoord { x: 3i32, y: 5i32 }) {
            assert(cs[11].spec_vertices()[2] == v);
            assert(cs[11].spec_vertices().contains(v));
        } else if v == (VertexCoord { x: 2i32, y: 6i32 }) {
            assert(cs[11].spec_vertices()[3] == v);
            assert(cs[11].spec_vertices().contains(v));
        } else if v == (VertexCoord { x: 0i32, y: -5i32 }) {
            assert(cs[12].spec_vertices()[0] == v);
            assert(cs[12].spec_vertices().contains(v));
        } else if v == (VertexCoord { x: 1i32, y: -4i32 }) {
            assert(cs[12].spec_vertices()[1] == v);
            assert(cs[12].spec_vertices().contains(v));
        } else if v == (VertexCoord { x: 1i32, y: -3i32 }) {
            assert(cs[12].spec_vertices()[2] == v);
            assert(cs[12].spec_vertices().contains(v));
        } else if v == (VertexCoord { x: 2i32, y: -2i32 }) {
            assert(cs[13].spec_vertices()[1] == v);
            assert(cs[13].spec_vertices().contains(v));
        } else if v == (VertexCoord { x: 2i32, y: -1i32 }) {
            assert(cs[13].spec_vertices()[2] == v);
            assert(cs[13].spec_vertices().contains(v));
        } else if v == (VertexCoord { x: 3i32, y: 0i32 }) {
            assert(cs[14].spec_vertices()[1] == v);
            assert(cs[14].spec_vertices().contains(v));
        } else if v == (VertexCoord { x: 3i32, y: 1i32 }) {
            assert(cs[14].spec_vertices()[2] == v);
            assert(cs[14].spec_vertices().contains(v));
        } else if v == (VertexCoord { x: 4i32, y: 2i32 }) {
            assert(cs[15].spec_vertices()[1] == v);
            assert(cs[15].spec_vertices().contains(v));
        } else if v == (VertexCoord { x: 4i32, y: 3i32 }) {
            assert(cs[15].spec_vertices()[2] == v);
            assert(cs[15].spec_vertices().contains(v));
        } else if v == (VertexCoord { x: 2i32, y: -5i32 }) {
            assert(cs[16].spec_vertices()[0] == v);
            assert(cs[16].spec_vertices().contains(v));
        } else if v == (VertexCoord { x: 3i32, y: -4i32 }) {
            assert(cs[16].spec_vertices()[1] == v);
            assert(cs[16].spec_vertices().contains(v));
        } else if v == (VertexCoord { x: 3i32, y: -3i32 }) {
            assert(cs[16].spec_vertices()[2] == v);
            assert(cs[16].spec_vertices().contains(v));
        } else if v == (VertexCoord { x: 4i32, y: -2i32 }) {
            assert(cs[17].spec_vertices()[1] == v);
            assert(cs[17].spec_vertices().contains(v));
        } else if v == (VertexCoord { x: 4i32, y: -1i32 }) {
            assert(cs[17].spec_vertices()[2] == v);
            assert(cs[17].spec_vertices().contains(v));
        } else if v == (VertexCoord { x: 5i32, y: 0i32 }) {
            assert(cs[18].spec_vertices()[1] == v);
            assert(cs[18].spec_vertices().contains(v));
        } else if v == (VertexCoord { x: 5i32, y: 1i32 }) {
            assert(cs[18].spec_vertices()[2] == v);
            assert(cs[18].spec_vertices().contains(v));
        }
    }

}

/// The list holds 54 distinct corners.
proof fn lemma_standard_corners_len()
    ensures
        standard_corners().len() == 54,
{
}

/// The standard board has exactly 54 corners.
#[verifier::rlimit(30)]
pub proof fn lemma_standard_corner_count()
    ensures
        vertex_union(standard_tile_coords()).len() == 54,
{
    let cs = standard_tile_coords();
    let s = standard_corners();
    lemma_corners_listed();
    lemma_listed_corners_found();
    lemma_standard_corners_len();
    assert forall|v: VertexCoord| vertex_union(cs).contains(v) <==> s.contains(v) by {
        lemma_vertex_union_contains(cs, v);
        if vertex_union(cs).contains(v) {
            let i = choose|i: int| 0 <= i < cs.len() && #[trigger] cs[i].spec_vertices().contains(v);
            let k = choose|k: int| 0 <= k < 6 && cs[i].spec_vertices()[k] == v;
            assert(s.contains(cs[i].spec_vertices()[k]));
        }
    }
    assert(vertex_union(cs) =~= s);
}


/// The sides of the standard board, each listed once.
spec fn standard_sides() -> Set<EdgeCoord> {
    set![
        EdgeCoord { x: -7i32, y: -1i32 },
        EdgeCoord { x: -6i32, y: 1i32 },
        EdgeCoord { x: -7i32, y: 3i32 },
        EdgeCoord { x: -9i32, y: 3i32 },
        EdgeCoord { x: -10i32, y: 1i32 },
        EdgeCoord { x: -9i32, y: -1i32 },
        EdgeCoord { x: -5i32, y: 3i32 },
        EdgeCoord { x: -4i32, y: 5i32 },
        EdgeCoord { x: -5i32, y: 7i32 },
        EdgeCoord { x: -7i32, y: 7i32 },
        EdgeCoord { x: -8i32, y: 5i32 },
        EdgeCoord { x: -3i32, y: 7i32 },
        EdgeCoord { x: -2i32, y: 9i32 },
        EdgeCoord { x: -3i32, y: 11i32 },
        EdgeCoord { x: -5i32, y: 11i32 },
        EdgeCoord { x: -6i32, y: 9i32 },
        EdgeCoord { x: -5i32, y: -5i32 },
        EdgeCoord { x: -4i32, y: -3i32 },
        EdgeCoord { x: -5i32, y: -1i32 },
        EdgeCoord { x: -8i32, y: -3i32 },
        EdgeCoord { x: -7i32, y: -5i32 },
        EdgeCoord { x: -3i32, y: -1i32 },
        EdgeCoord { x: -2i32, y: 1i32 },
        EdgeCoord { x: -3i32, y: 3i32 },
        EdgeCoord { x: -1i32, y: 3i32 },
        EdgeCoord { x: 0i32, y: 5i32 },
        EdgeCoord { x: -1i32, y: 7i32 },
        EdgeCoord { x: 1i32, y: 7i32 },
        EdgeCoord { x: 2i32, y: 9i32 },
        EdgeCoord { x: 1i32, y: 11i32 },
        EdgeCoord { x: -1i32, y: 11i32 },
        EdgeCoord { x: -3i32, y: -9i32 },
        EdgeCoord { x: -2i32, y: -7i32 },
        EdgeCoord { x: -3i32, y: -5i32 },
        EdgeCoord { x: -6i32, y: -7i32 },
        EdgeCoord { x: -5i32, y: -9i32 },
        EdgeCoord { x: -1i32, y: -5i32 },
        EdgeCoord { x: 0i32, y: -3i32 },
        EdgeCoord { x: -1i32, y: -1i32 },
        EdgeCoord { x: 1i32, y: -1i32 },
        EdgeCoord { x: 2i32, y: 1i32 },
        EdgeCoord { x: 1i32, y: 3i32 },
        EdgeCoord { x: 3i32, y: 3i32 },
        EdgeCoord { x: 4i32, y: 5i32 },
        EdgeCoord { x: 3i32, y: 7i32 },
        EdgeCoord { x: 5i32, y: 7i32 },
        EdgeCoord { x: 6i32, y: 9i32 },
        EdgeCoord { x: 5i32, y: 11i32 },
        EdgeCoord { x: 3i32, y: 11i32 },
        EdgeCoord { x: 1i32, y: -9i32 },
        EdgeCoord { x: 2i32, y: -7i32 },
        EdgeCoord { x: 1i32, y: -5i32 },
        EdgeCoord { x: -1i32, y: -9i32 },
        EdgeCoord { x: 3i32, y: -5i32 },
        EdgeCoord { x: 4i32, y: -3i32 },
        EdgeCoord { x: 3i32, y: -1i32 },
        EdgeCoord { x: 5i32, y: -1i32 },
        EdgeCoord { x: 6i32, y: 1i32 },
        EdgeCoord { x: 5i32, y: 3i32 },
        EdgeCoord { x: 7i32, y: 3i32 },
        EdgeCoord { x: 8i32, y: 5i32 },
        EdgeCoord { x: 7i32, y: 7i32 },
        EdgeCoord { x: 5i32, y: -9i32 },
        EdgeCoord { x: 6i32, y: -7i32 },
        EdgeCoord { x: 5i32, y: -5i32 },
        EdgeCoord { x: 3i32, y: -9i32 },
        EdgeCoord { x: 7i32, y: -5i32 },
        EdgeCoord { x: 8i32, y: -3i32 },
        EdgeCoord { x: 7i32, y: -1i32 },
        EdgeCoord { x: 9i32, y: -1i32 },
        EdgeCoord { x: 10i32, y: 1i32 },
        EdgeCoord { x: 9i32, y: 3i32 },
    ]
}

/// Every side of every standard tile is listed.
proof fn lemma_sides_listed()
    ensures
        forall|i: int, k: int|
            0 <= i < standard_tile_coords().len() && 0 <= k < 6 ==> #[trigger] standard_sides().contains(
                standard_tile_coords()[i].spec_edges()[k],
            ),
{
    let cs = standard_tile_coords();
    let s = standard_sides();
    assert forall|i: int, k: int| 0 <= i < cs.len() && 0 <= k < 6 implies s.contains(
        cs[i].spec_edges()[k],
    ) by {
        if i == 0 {
            assert(cs[0] == HexCoord { q: -2i32, r: 0i32 });
        } else if i == 1 {
            assert(cs[1] == HexCoord { q: -2i32, r: 1i32 });
        } else if i == 2 {
            assert(cs[2] == HexCoord { q: -2i32, r: 2i32 });
        } else if i == 3 {
            assert(cs[3] == HexCoord { q: -1i32, r: -1i32 });
        } else if i == 4 {
            assert(cs[4] == HexCoord { q: -1i32, r: 0i32 });
        } else if i == 5 {
            assert(cs[5] == HexCoord { q: -1i32, r: 1i32 });
        } else if i == 6 {
            assert(cs[6] == HexCoord { q: -1i32, r: 2i32 });
        } else if i == 7 {
            assert(cs[7] == HexCoord { q: 0i32, r: -2i32 });
        } else if i == 8 {
            assert(cs[8] == HexCoord { q: 0i32, r: -1i32 });
        } else if i == 9 {
            assert(cs[9] == HexCoord { q: 0i32, r: 0i32 });
        } else if i == 10 {
            assert(cs[10] == HexCoord { q: 0i32, r: 1i32 });
        } else if i == 11 {
            assert(cs[11] == HexCoord { q: 0i32, r: 2i32 });
        } else if i == 12 {
            assert(cs[12] == HexCoord { q: 1i32, r: -2i32 });
        } else if i == 13 {
            assert(cs[13] == HexCoord { q: 1i32, r: -1i32 });
        } else if i == 14 {
            assert(cs[14] == HexCoord { q: 1i32, r: 0i32 });
        } else if i == 15 {
            assert(cs[15] == HexCoord { q: 1i32, r: 1i32 });
        } else if i == 16 {
            assert(cs[16] == HexCoord { q: 2i32, r: -2i32 });
        } else if i == 17 {
            assert(cs[17] == HexCoord { q: 2i32, r: -1i32 });
        } else if i == 18 {
            assert(cs[18] == HexCoord { q: 2i32, r: 0i32 });
        }
    }

}

/// Every listed side belongs to a standard tile.
proof fn lemma_listed_sides_found()
    ensures
        forall|v: EdgeCoord| standard_sides().contains(v) ==> exists|i: int|
            0 <= i < standard_tile_coords().len() && #[trigger] standard_tile_coords()[i].spec_edges().contains(v),
{
    let cs = standard_tile_coords();
    let s = standard_sides();
    assert forall|v: EdgeCoord| s.contains(v) implies exists|i: int|
        0 <= i < cs.len() && #[trigger] cs[i].spec_edges().contains(v) by {
        if v == (EdgeCoord { x: -7i32, y: -1i32 }) {
            assert(cs[0].spec_edges()[0] == v);
            assert(cs[0].spec_edges().contains(v));
        } else if v == (EdgeCoord { x: -6i32, y: 1i32 }) {
            assert(cs[0].spec_edges()[1] == v);
            assert(cs[0].spec_edges().contains(v));
        } else if v == (EdgeCoord { x: -7i32, y: 3i32 }) {
            assert(cs[0].spec_edges()[2] == v);
            assert(cs[0].spec_edges().contains(v));
        } else if v == (EdgeCoord { x: -9i32, y: 3i32 }) {
            assert(cs[0].spec_edges()[3] == v);
            assert(cs[0].spec_edges().contains(v));
        } else if v == (EdgeCoord { x: -10i32, y: 1i32 }) {
            assert(cs[0].spec_edges()[4] == v);
            assert(cs[0].spec_edges().contains(v));
        } else if v == (EdgeCoord { x: -9i32, y: -1i32 }) {
            assert(cs[0].spec_edges()[5] == v);
            assert(cs[0].spec_edges().contains(v));
        } else if v == (EdgeCoord { x: -5i32, y: 3i32 }) {
            assert(cs[1].spec_edges()[0] == v);
            assert(cs[1].spec_edges().contains(v));
        } else if v == (EdgeCoord { x: -4i32, y: 5i32 }) {
            assert(cs[1].spec_edges()[1] == v);
            assert(cs[1].spec_edges().contains(v));
        } else if v == (EdgeCoord { x: -5i32, y: 7i32 }) {
            assert(cs[1].spec_edges()[2] == v);
            assert(cs[1].spec_edges().contains(v));
        } else if v == (EdgeCoord { x: -7i32, y: 7i32 }) {
            assert(cs[1].spec_edges()[3] == v);
            assert(cs[1].spec_edges().contains(v));
        } else if v == (EdgeCoord { x: -8i32, y: 5i32 }) {
            assert(cs[1].spec_edges()[4] == v);
            assert(cs[1].spec_edges().contains(v));
        } else if v == (EdgeCoord { x: -3i32, y: 7i32 }) {
            assert(cs[2].spec_edges()[0] == v);
            assert(cs[2].spec_edges().contains(v));
        } else if v == (EdgeCoord { x: -2i32, y: 9i32 }) {
            assert(cs[2].spec_edges()[1] == v);
            assert(cs[2].spec_edges().contains(v));
        } else if v == (EdgeCoord { x: -3i32, y: 11i32 }) {
            assert(cs[2].spec_edges()[2] == v);
            assert(cs[2].spec_edges().contains(v));
        } else if v == (EdgeCoord { x: -5i32, y: 11i32 }) {
            assert(cs[2].spec_edges()[3] == v);
            assert(cs[2].spec_edges().contains(v));
        } else if v == (EdgeCoord { x: -6i32, y: 9i32 }) {
            assert(cs[2].spec_edges()[4] == v);
            assert(cs[2].spec_edges().contains(v));
        } else if v == (EdgeCoord { x: -5i32, y: -5i32 }) {
            assert(cs[3].spec_edges()[0] == v);
            assert(cs[3].spec_edges().contains(v));
        } else if v == (EdgeCoord { x: -4i32, y: -3i32 }) {
            assert(cs[3].spec_edges()[1] == v);
            assert(cs[3].spec_edges().contains(v));
        } else if v == (EdgeCoord { x: -5i32, y: -1i32 }) {
            assert(cs[3].spec_edges()[2] == v);
            assert(cs[3].spec_edges().contains(v));
        } else if v == (EdgeCoord { x: -8i32, y: -3i32 }) {
            assert(cs[3].spec_edges()[4] == v);
            assert(cs[3].spec_edges().contains(v));
        } else if v == (EdgeCoord { x: -7i32, y: -5i32 }) {
            assert(cs[3].spec_edges()[5] == v);
            assert(cs[3].spec_edges().contains(v));
        } else if v == (EdgeCoord { x: -3i32, y: -1i32 }) {
            assert(cs[4].spec_edges()[0] == v);
            assert(cs[4].spec_edges().contains(v));
        } else if v == (EdgeCoord { x: -2i32, y: 1i32 }) {
            assert(cs[4].spec_edges()[1] == v);
            assert(cs[4].spec_edges().contains(v));
        } else if v == (EdgeCoord { x: -3i32, y: 3i32 }) {
            assert(cs[4].spec_edges()[2] == v);
            assert(cs[4].spec_edges().contains(v));
        } else if v == (EdgeCoord { x: -1i32, y: 3i32 }) {
            assert(cs[5].spec_edges()[0] == v);
            assert(cs[5].spec_edges().contains(v));
        } else if v == (EdgeCoord { x: 0i32, y: 5i32 }) {
            assert(cs[5].spec_edges()[1] == v);
            assert(cs[5].spec_edges().contains(v));
        } else if v == (EdgeCoord { x: -1i32, y: 7i32 }) {
            assert(cs[5].spec_edges()[2] == v);
            assert(cs[5].spec_edges().contains(v));
        } else if v == (EdgeCoord { x: 1i32, y: 7i32 }) {
            assert(cs[6].spec_edges()[0] == v);
            assert(cs[6].spec_edges().contains(v));
        } else if v == (EdgeCoord { x: 2i32, y: 9i32 }) {
            assert(cs[6].spec_edges()[1] == v);
            assert(cs[6].spec_edges().contains(v));
        } else if v == (EdgeCoord { x: 1i32, y: 11i32 }) {
            assert(cs[6].spec_edges()[2] == v);
            assert(cs[6].spec_edges().contains(v));
        } else if v == (EdgeCoord { x: -1i32, y: 11i32 }) {
            assert(cs[6].spec_edges()[3] == v);
            assert(cs[6].spec_edges().contains(v));
        } else if v == (EdgeCoord { x: -3i32, y: -9i32 }) {
            assert(cs[7].spec_edges()[0] == v);
            assert(cs[7].spec_edges().contains(v));
        } else if v == (EdgeCoord { x: -2i32, y: -7i32 }) {
            assert(cs[7].spec_edges()[1] == v);
            assert(cs[7].spec_edges().contains(v));
        } else if v == (EdgeCoord { x: -3i32, y: -5i32 }) {
            assert(cs[7].spec_edges()[2] == v);
            assert(cs[7].spec_edges().contains(v));
        } else if v == (EdgeCoord { x: -6i32, y: -7i32 }) {
            assert(cs[7].spec_edges()[4] == v);
            assert(cs[7].spec_edges().contains(v));
        } else if v == (EdgeCoord { x: -5i32, y: -9i32 }) {
            assert(cs[7].spec_edges()[5] == v);
            assert(cs[7].spec_edges().contains(v));
        } else if v == (EdgeCoord { x: -1i32, y: -5i32 }) {
            assert(cs[8].spec_edges()[0] == v);
            assert(cs[8].spec_edges().contains(v));
        } else if v == (EdgeCoord { x: 0i32, y: -3i32 }) {
            assert(cs[8].spec_edges()[1] == v);
            assert(cs[8].spec_edges().contains(v));
        } else if v == (EdgeCoord { x: -1i32, y: -1i32 }) {
            assert(cs[8].spec_edges()[2] == v);
            assert(cs[8].spec_edges().contains(v));
        } else if v == (EdgeCoord { x: 1i32, y: -1i32 }) {
            assert(cs[9].spec_edges()[0] == v);
            assert(cs[9].spec_edges().contains(v));
        } else if v == (EdgeCoord { x: 2i32, y: 1i32 }) {
            assert(cs[9].spec_edges()[1] == v);
            assert(cs[9].spec_edges().contains(v));
        } else if v == (EdgeCoord { x: 1i32, y: 3i32 }) {
            assert(cs[9].spec_edges()[2] == v);
            assert(cs[9].spec_edges().contains(v));
        } else if v == (EdgeCoord { x: 3i32, y: 3i32 }) {
            assert(cs[10].spec_edges()[0] == v);
            assert(cs[10].spec_edges().contains(v));
        } else if v == (EdgeCoord { x: 4i32, y: 5i32 }) {
            assert(cs[10].spec_edges()[1] == v);
            assert(cs[10].spec_edges().contains(v));
        } else if v == (EdgeCoord { x: 3i32, y: 7i32 }) {
            assert(cs[10].spec_edges()[2] == v);
            assert(cs[10].spec_edges().contains(v));
        } else if v == (EdgeCoord { x: 5i32, y: 7i32 }) {
            assert(cs[11].spec_edges()[0] == v);
            assert(cs[11].spec_edges().contains(v));
        } else if v == (EdgeCoord { x: 6i32, y: 9i32 }) {
            assert(cs[11].spec_edges()[1] == v);
            assert(cs[11].spec_edges().contains(v));
        } else if v == (EdgeCoord { x: 5i32, y: 11i32 }) {
            assert(cs[11].spec_edges()[2] == v);
            assert(cs[11].spec_edges().contains(v));
        } else if v == (EdgeCoord { x: 3i32, y: 11i32 }) {
            assert(cs[11].spec_edges()[3] == v);
            assert(cs[11].spec_edges().contains(v));
        } else if v == (EdgeCoord { x: 1i32, y: -9i32 }) {
            assert(cs[12].spec_edges()[0] == v);
            assert(cs[12].spec_edges().contains(v));
        } else if v == (EdgeCoord { x: 2i32, y: -7i32 }) {
            assert(cs[12].spec_edges()[1] == v);
            assert(cs[12].spec_edges().contains(v));
        } else if v == (EdgeCoord { x: 1i32, y: -5i32 }) {
            assert(cs[12].spec_edges()[2] == v);
            assert(cs[12].spec_edges().contains(v));
        } else if v == (EdgeCoord { x: -1i32, y: -9i32 }) {
            assert(cs[12].spec_edges()[5] == v);
            assert(cs[12].spec_edges().contains(v));
        } else if v == (EdgeCoord { x: 3i32, y: -5i32 }) {
            assert(cs[13].spec_edges()[0] == v);
            assert(cs[13].spec_edges().contains(v));
        } else if v == (EdgeCoord { x: 4i32, y: -3i32 }) {
            assert(cs[13].spec_edges()[1] == v);
            assert(cs[13].spec_edges().contains(v));
        } else if v == (EdgeCoord { x: 3i32, y: -1i32 }) {
            assert(cs[13].spec_edges()[2] == v);
            assert(cs[13].spec_edges().contains(v));
        } else if v == (EdgeCoord { x: 5i32, y: -1i32 }) {
            assert(cs[14].spec_edges()[0] == v);
            assert(cs[14].spec_edges().contains(v));
        } else if v == (EdgeCoord { x: 6i32, y: 1i32 }) {
            assert(cs[14].spec_edges()[1] == v);
            assert(cs[14].spec_edges().contains(v));
        } else if v == (EdgeCoord { x: 5i32, y: 3i32 }) {
            assert(cs[14].spec_edges()[2] == v);
            assert(cs[14].spec_edges().contains(v));
        } else if v == (EdgeCoord { x: 7i32, y: 3i32 }) {
            assert(cs[15].spec_edges()[0] == v);
            assert(cs[15].spec_edges().contains(v));
        } else if v == (EdgeCoord { x: 8i32, y: 5i32 }) {
            assert(cs[15].spec_edges()[1] == v);
            assert(cs[15].spec_edges().contains(v));
        } else if v == (EdgeCoord { x: 7i32, y: 7i32 }) {
            assert(cs[15].spec_edges()[2] == v);
            assert(cs[15].spec_edges().contains(v));
        } else if v == (EdgeCoord { x: 5i32, y: -9i32 }) {
            assert(cs[16].spec_edges()[0] == v);
            assert(cs[16].spec_edges().contains(v));
        } else if v == (EdgeCoord { x: 6i32, y: -7i32 }) {
            assert(cs[16].spec_edges()[1] == v);
            assert(cs[16].spec_edges().contains(v));
        } else if v == (EdgeCoord { x: 5i32, y: -5i32 }) {
            assert(cs[16].spec_edges()[2] == v);
            assert(cs[16].spec_edges().contains(v));
        } else if v == (EdgeCoord { x: 3i32, y: -9i32 }) {
            assert(cs[16].spec_edges()[5] == v);
            assert(cs[16].spec_edges().contains(v));
        } else if v == (EdgeCoord { x: 7i32, y: -5i32 }) {
            assert(cs[17].spec_edges()[0] == v);
            assert(cs[17].spec_edges().contains(v));
        } else if v == (EdgeCoord { x: 8i32, y: -3i32 }) {
            assert(cs[17].spec_edges()[1] == v);
            assert(cs[17].spec_edges().contains(v));
        } else if v == (EdgeCoord { x: 7i32, y: -1i32 }) {
            assert(cs[17].spec_edges()[2] == v);
            assert(cs[17].spec_edges().contains(v));
        } else if v == (EdgeCoord { x: 9i32, y: -1i32 }) {
            assert(cs[18].spec_edges()[0] == v);
            assert(cs[18].spec_edges().contains(v));
        } else if v == (EdgeCoord { x: 10i32, y: 1i32 }) {
            assert(cs[18].spec_edges()[1] == v);
            assert(cs[18].spec_edges().contains(v));
        } else if v == (EdgeCoord { x: 9i32, y: 3i32 }) {
            assert(cs[18].spec_edges()[2] == v);
            assert(cs[18].spec_edges().contains(v));
        }
    }

}

/// The list holds 72 distinct sides.
proof fn lemma_standard_sides_len()
    ensures
        standard_sides().len() == 72,
{
}

/// The standard board has exactly 72 sides.
#[verifier::rlimit(30)]
pub proof fn lemma_standard_side_count()
    ensures
        edge_union(standard_tile_coords()).len() == 72,
{
    let cs = standard_tile_coords();
    let s = standard_sides();
    lemma_sides_listed();
    lemma_listed_sides_found();
    lemma_standard_sides_len();
    assert forall|v: EdgeCoord| edge_union(cs).contains(v) <==> s.contains(v) by {
        lemma_edge_union_contains(cs, v);
        if edge_union(cs).contains(v) {
            let i = choose|i: int| 0 <= i < cs.len() && #[trigger] cs[i].spec_edges().contains(v);
            let k = choose|k: int| 0 <= k < 6 && cs[i].spec_edges()[k] == v;
            assert(s.contains(cs[i].spec_edges()[k]));
        }
    }
    assert(edge_union(cs) =~= s);
}


} // verus!
