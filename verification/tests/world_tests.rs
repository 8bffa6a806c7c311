use hex_world::world::tile::Tile;
use hex_world::world::world_camera::WorldCamera;
use hex_world::world::TILE_YIELD;

fn parts(t: &Tile) -> (u8, u8, u8, u8) {
    (t.get_biome(), t.get_improved(), t.get_resource(), t.get_occupied())
}

#[test]
fn new_tile_packs_biome_and_resource() {
    assert_eq!(parts(&Tile::new(3, 5)), (3, 0, 5, 0));
    assert_eq!(parts(&Tile::new(7, 7)), (7, 0, 7, 0));
    assert_eq!(parts(&Tile::new(0, 0)), (0, 0, 0, 0));
}

#[test]
fn new_tile_overflowing_resource_spills() {
    // resource 8 sets the improvement bit, 16 and up reach the biome bits
    assert_eq!(parts(&Tile::new(0, 8)), (0, 1, 0, 0));
    assert_eq!(parts(&Tile::new(2, 16)), (3, 0, 0, 0));
    // biome bits beyond 3 are shifted out
    assert_eq!(parts(&Tile::new(9, 1)), (1, 0, 1, 0));
}

#[test]
fn setters_change_one_field() {
    let mut t = Tile::new(2, 3);
    t.set_biome(6);
    assert_eq!(parts(&t), (6, 0, 3, 0));
    t.improve();
    assert_eq!(parts(&t), (6, 1, 3, 0));
    t.set_improved(2);
    assert_eq!(parts(&t), (6, 0, 3, 0));
    t.set_improved(3);
    assert_eq!(parts(&t), (6, 1, 3, 0));
    t.set_resource(7);
    assert_eq!(parts(&t), (6, 1, 7, 0));
    t.set_occupied(1);
    assert_eq!(parts(&t), (6, 1, 7, 1));
    t.set_occupied(4);
    assert_eq!(parts(&t), (6, 1, 7, 0));
    t.set_biome(0);
    t.set_resource(0);
    assert_eq!(parts(&t), (0, 1, 0, 0));
}

#[test]
fn harvest_yields() {
    let mut t = Tile::new(4, 1);
    assert_eq!(t.harvest(), (4, 0));
    t.improve();
    assert_eq!(t.harvest(), (4, TILE_YIELD * 5));
    t.set_occupied(1);
    assert_eq!(t.harvest(), (4, TILE_YIELD * 5 - 2));
}

#[test]
fn camera_wraps_offsets() {
    let mut c = WorldCamera::new((10, 8));
    assert_eq!(c.offsets(), (0, 0));
    c.move_camera(3, -2);
    assert_eq!(c.offsets(), (3, -2));
    c.move_camera(9, -7);
    assert_eq!(c.offsets(), (2, -1));
    c.move_camera(-12, 17);
    assert_eq!(c.offsets(), (0, 0));
    c.move_camera(-25, 25);
    assert_eq!(c.offsets(), (-5, 1));
}

#[test]
fn camera_offsets_stay_inside_the_world() {
    let mut c = WorldCamera::new((7, 5));
    for step in [13isize, -40, 6, 100, -3, 0, 29] {
        c.move_camera(step, -step);
        let (x, y) = c.offsets();
        assert!(x.abs() < 7 && y.abs() < 5);
    }
}
