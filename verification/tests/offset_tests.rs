use hex_world::world::hex::Hex;
use hex_world::world::offset_coords::{
    qoffset_from_cube, qoffset_from_cube_offsets, qoffset_to_cube, qoffset_to_cube_offsets,
    roffset_from_cube,
};
use hex_world::world::{OffsetTile, EVEN, ODD};

#[test]
fn qoffset_from_cube_even_and_odd() {
    let h = Hex::new(1, -1, 0);
    let t = qoffset_from_cube(EVEN, &h);
    assert_eq!((t.get_x(), t.get_y()), (1, 0));
    let t = qoffset_from_cube(ODD, &h);
    assert_eq!((t.get_x(), t.get_y()), (1, u32::MAX));
    let h = Hex::new(-3, 2, 1);
    assert_eq!(qoffset_from_cube_offsets(EVEN, &h), (-3, 1));
    assert_eq!(qoffset_from_cube_offsets(ODD, &h), (-3, 0));
    let h = Hex::new(4, -1, -3);
    assert_eq!(qoffset_from_cube_offsets(EVEN, &h), (4, 1));
    assert_eq!(qoffset_from_cube_offsets(ODD, &h), (4, 1));
}

#[test]
fn qoffset_to_cube_even_and_odd() {
    let h = qoffset_to_cube(EVEN, OffsetTile::new(1, 0));
    assert_eq!((h.get_q(), h.get_r(), h.get_s()), (1, -1, 0));
    let h = qoffset_to_cube(ODD, OffsetTile::new(3, 5));
    assert_eq!((h.get_q(), h.get_r(), h.get_s()), (3, 4, -7));
    let h = qoffset_to_cube_offsets(EVEN, (3, 5));
    assert_eq!((h.get_q(), h.get_r(), h.get_s()), (3, 3, -6));
}

#[test]
fn qoffset_round_trips() {
    for offset in [EVEN, ODD] {
        for q in -5..6 {
            for r in -5..6 {
                let h = Hex::new(q, r, -q - r);
                let t = qoffset_from_cube(offset, &h);
                assert!(qoffset_to_cube(offset, t) == h);
            }
        }
        for x in 0..8u32 {
            for y in 0..8u32 {
                let t = OffsetTile::new(x, y);
                assert!(qoffset_from_cube(offset, &qoffset_to_cube(offset, t)) == t);
            }
        }
    }
}

#[test]
fn roffset_from_cube_shoves_rows() {
    assert_eq!(roffset_from_cube(EVEN, Hex::new(2, 3, -5)), (4, 3));
    assert_eq!(roffset_from_cube(ODD, Hex::new(2, 3, -5)), (3, 3));
    assert_eq!(roffset_from_cube(EVEN, Hex::new(2, 4, -6)), (4, 4));
    assert_eq!(roffset_from_cube(EVEN, Hex::new(-1, 0, 1)), (u32::MAX, 0));
}

#[test]
fn neighbors_in_range_offset_lists_tiles() {
    let center = OffsetTile::new(4, 4);
    let tiles = Hex::neighbors_in_range_offset(center, 1);
    let center_hex = qoffset_to_cube(EVEN, center);
    let expected: Vec<OffsetTile> = Hex::neighbors_in_range(center_hex, 1)
        .iter()
        .map(|h| qoffset_from_cube(EVEN, h))
        .collect();
    assert_eq!(tiles, expected);
    let got: Vec<(u32, u32)> = tiles.iter().map(|t| (t.get_x(), t.get_y())).collect();
    assert_eq!(got, vec![(3, 4), (3, 5), (4, 3), (4, 4), (4, 5), (5, 4), (5, 5)]);
    assert_eq!(Hex::neighbors_in_range_offset(center, 2).len(), 19);
}

#[test]
fn neighbors_in_range_offset_tiles_are_distinct() {
    for (x, y) in [(4u32, 4u32), (5, 9), (10, 3)] {
        let tiles = Hex::neighbors_in_range_offset(OffsetTile::new(x, y), 3);
        assert_eq!(tiles.len(), 37);
        for (i, a) in tiles.iter().enumerate() {
            for b in tiles.iter().skip(i + 1) {
                assert!(a != b);
            }
        }
    }
}
