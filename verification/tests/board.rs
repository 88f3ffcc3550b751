use std::collections::{HashMap, HashSet};

use catan::board::{Board, EdgeCoord, HexCoord, VertexCoord};

#[test]
fn instantiate_board() {
    let board = Board::new();
    let tiles = board.clone().tiles;
    let tiles_count = tiles.len();
    let center_tile_neighbors = board.tile_neighbors(&HexCoord { q: 0, r: 0 }).unwrap();
    let center_tile_neighbors_count = center_tile_neighbors.len();

    let corner_tile_neighbors = board.tile_neighbors(&HexCoord { q: 0, r: -2 }).unwrap();
    let corner_tile_neighbors_count = corner_tile_neighbors.len();

    assert_eq!(tiles_count, 19);
    assert_eq!(center_tile_neighbors_count, 6);
    assert_eq!(corner_tile_neighbors_count, 3);
}

#[test]
fn board_tiles_and_vertices_count() {
    let board = Board::new();

    assert_eq!(board.tiles.len(), 19);
    assert_eq!(board.vertices.len(), 54);
    assert_eq!(board.edges.len(), 72);
}

#[test]
fn test_adjacent_hexes_share_correct_vertices_and_edges() {
    let board = Board::new();

    // Every pair of adjacent hexes shares exactly 2 vertices and 1 edge.
    for tile in &board.tiles {
        let coord = &tile.coord;
        let neighbors = board.tile_neighbors(coord).unwrap();

        for neighbor_tile in neighbors {
            let neighbor_coord = neighbor_tile.coord;
            let my_verts: HashSet<_> = coord.vertices().into_iter().collect();
            let neighbor_verts: HashSet<_> = neighbor_coord.vertices().into_iter().collect();
            let shared_verts: Vec<_> = my_verts.intersection(&neighbor_verts).collect();

            let my_edges: HashSet<_> = coord.edges().into_iter().collect();
            let neighbor_edges: HashSet<_> = neighbor_coord.edges().into_iter().collect();
            let shared_edges: Vec<_> = my_edges.intersection(&neighbor_edges).collect();

            assert_eq!(
                shared_verts.len(),
                2,
                "Hexes {:?} and {:?} should share exactly 2 vertices, found {}",
                coord,
                neighbor_coord,
                shared_verts.len()
            );
            assert_eq!(
                shared_edges.len(),
                1,
                "Hexes {:?} and {:?} should share exactly 1 edge, found {}",
                coord,
                neighbor_coord,
                shared_edges.len()
            );
        }
    }
}

#[test]
fn test_each_vertex_touches_three_hexes() {
    let board = Board::new();

    let mut vertex_hex_count: HashMap<VertexCoord, usize> = HashMap::new();
    for tile in &board.tiles {
        for vertex in tile.coord.vertices() {
            *vertex_hex_count.entry(vertex).or_insert(0) += 1;
        }
    }

    // Vertices are touched by at most 3 hexes (border vertices by 1 or 2).
    for (vertex, count) in &vertex_hex_count {
        assert!(
            *count >= 1 && *count <= 3,
            "Vertex {:?} is touched by {} hexes (should be 1-3)",
            vertex,
            count
        );
    }

    let mut count_distribution: HashMap<usize, usize> = HashMap::new();
    for count in vertex_hex_count.values() {
        *count_distribution.entry(*count).or_insert(0) += 1;
    }
    println!("Vertex distribution: {:?}", count_distribution);
}

#[test]
fn test_each_edge_touches_two_hexes_max() {
    let board = Board::new();

    let mut edge_hex_count: HashMap<EdgeCoord, usize> = HashMap::new();
    for tile in &board.tiles {
        for edge in tile.coord.edges() {
            *edge_hex_count.entry(edge).or_insert(0) += 1;
        }
    }

    // Each edge is touched by at most 2 hexes (border edges by only 1).
    for (edge, count) in &edge_hex_count {
        assert!(
            *count >= 1 && *count <= 2,
            "Edge {:?} is touched by {} hexes (should be 1-2)",
            edge,
            count
        );
    }

    println!("Total edges: {}", edge_hex_count.len());
}

#[test]
fn neighbors_go_counter_clockwise_from_the_right() {
    let h = HexCoord { q: 2, r: -1 };
    assert_eq!(
        h.neighbors(),
        [
            HexCoord { q: 3, r: -1 },
            HexCoord { q: 3, r: -2 },
            HexCoord { q: 2, r: -2 },
            HexCoord { q: 1, r: -1 },
            HexCoord { q: 1, r: 0 },
            HexCoord { q: 2, r: 0 },
        ]
    );
}

#[test]
fn vertices_of_a_hex() {
    let h = HexCoord { q: 1, r: -2 };
    // 2q + r = 0, 2r = -4
    assert_eq!(
        h.vertices(),
        [
            VertexCoord { x: 0, y: -5 },
            VertexCoord { x: 1, y: -4 },
            VertexCoord { x: 1, y: -3 },
            VertexCoord { x: 0, y: -2 },
            VertexCoord { x: -1, y: -3 },
            VertexCoord { x: -1, y: -4 },
        ]
    );
}

#[test]
fn edges_of_a_hex() {
    let h = HexCoord { q: -1, r: 1 };
    // 4q + 2r = -2, 4r = 4
    assert_eq!(
        h.edges(),
        [
            EdgeCoord { x: -1, y: 3 },
            EdgeCoord { x: 0, y: 5 },
            EdgeCoord { x: -1, y: 7 },
            EdgeCoord { x: -3, y: 7 },
            EdgeCoord { x: -4, y: 5 },
            EdgeCoord { x: -3, y: 3 },
        ]
    );
}

#[test]
fn neighbors_are_symmetric() {
    let h = HexCoord { q: -1, r: 2 };
    let ns = h.neighbors();
    for i in 0..6 {
        assert_eq!(ns[i].neighbors()[(i + 3) % 6], h);
    }
}

#[test]
fn new_board_covers_radius_two() {
    let board = Board::new();
    let coords: HashSet<HexCoord> = board.tiles.iter().map(|t| t.coord).collect();
    assert_eq!(coords.len(), 19);
    for q in -3..=3 {
        for r in -3..=3 {
            let inside = q >= -2 && q <= 2 && r >= -2 && r <= 2 && q + r >= -2 && q + r <= 2;
            assert_eq!(coords.contains(&HexCoord { q, r }), inside);
        }
    }
    for tile in &board.tiles {
        assert!(tile.resource.is_none());
        assert!(tile.tile_type.is_none());
        assert!(tile.dice_number.is_none());
    }
}

#[test]
fn new_board_lists_every_corner_and_side_once() {
    let board = Board::new();
    let mut corners: HashSet<VertexCoord> = HashSet::new();
    let mut sides: HashSet<EdgeCoord> = HashSet::new();
    for tile in &board.tiles {
        corners.extend(tile.coord.vertices());
        sides.extend(tile.coord.edges());
    }
    let listed_corners: HashSet<VertexCoord> = board.vertices.iter().copied().collect();
    let listed_sides: HashSet<EdgeCoord> = board.edges.iter().copied().collect();
    assert_eq!(listed_corners.len(), board.vertices.len());
    assert_eq!(listed_sides.len(), board.edges.len());
    assert_eq!(listed_corners, corners);
    assert_eq!(listed_sides, sides);
}

#[test]
fn tile_neighbors_of_missing_tile_is_an_error() {
    let board = Board::new();
    let res = board.tile_neighbors(&HexCoord { q: 3, r: 0 });
    assert_eq!(
        res.unwrap_err(),
        "The provided coordinate has no associated hex tile".to_string()
    );
}

#[test]
fn tile_neighbors_in_counter_clockwise_order() {
    let board = Board::new();
    // (2, 0) has on the board only (2, -1), (1, 0) and (1, 1).
    let ns = board.tile_neighbors(&HexCoord { q: 2, r: 0 }).unwrap();
    let coords: Vec<HexCoord> = ns.iter().map(|t| t.coord).collect();
    assert_eq!(
        coords,
        vec![HexCoord { q: 2, r: -1 }, HexCoord { q: 1, r: 0 }, HexCoord { q: 1, r: 1 }]
    );
}

#[test]
fn adjacent_hexes_of_inner_and_outer_corners() {
    let board = Board::new();
    // (1, 0) is shared by (0, 0), (1, 0) and (1, -1).
    let inner: HashSet<HexCoord> =
        VertexCoord { x: 1, y: 0 }.adjacent_hexes(&board).into_iter().collect();
    let expected: HashSet<HexCoord> = [
        HexCoord { q: 0, r: 0 },
        HexCoord { q: 1, r: 0 },
        HexCoord { q: 1, r: -1 },
    ]
    .into_iter()
    .collect();
    assert_eq!(inner, expected);
    // The top corner of (0, -2) lies on the rim.
    let rim = VertexCoord { x: -2, y: -5 }.adjacent_hexes(&board);
    assert_eq!(rim, vec![HexCoord { q: 0, r: -2 }]);
    // Far away: no tile.
    assert!(VertexCoord { x: 40, y: 40 }.adjacent_hexes(&board).is_empty());
    for v in &board.vertices {
        let n = v.adjacent_hexes(&board).len();
        assert!(n >= 1 && n <= 3);
    }
}

#[test]
fn generate_vertices_and_edges_rebuild_the_lists() {
    let mut board = Board::new();
    board.vertices.clear();
    board.edges.clear();
    let vs = board.generate_vertices();
    let es = board.generate_edges();
    assert_eq!(vs.len(), 54);
    assert_eq!(es.len(), 72);
    assert_eq!(board.vertices, vs);
    assert_eq!(board.edges, es);
    assert_eq!(board.tiles.len(), 19);
}
