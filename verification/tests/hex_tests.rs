use hex_world::world::hex::Hex;

fn coords(h: &Hex) -> (i32, i32, i32) {
    (h.get_q(), h.get_r(), h.get_s())
}

#[test]
fn new_keeps_cube_coordinates() {
    let h = Hex::new(1, -3, 2);
    assert_eq!(coords(&h), (1, -3, 2));
    let z = Hex::new(0, 0, 0);
    assert_eq!(coords(&z), (0, 0, 0));
}

#[test]
fn add_sub_mul_operators() {
    let a = Hex::new(1, -3, 2);
    let b = Hex::new(-2, 1, 1);
    assert_eq!(coords(&(a + b)), (-1, -2, 3));
    assert_eq!(coords(&(&a + &b)), (-1, -2, 3));
    assert_eq!(coords(&(a - b)), (3, -4, 1));
    assert_eq!(coords(&(&a - &b)), (3, -4, 1));
    // products that again sum to zero
    let c = Hex::new(1, -1, 0);
    let d = Hex::new(1, 1, -2);
    assert_eq!(coords(&(c * d)), (1, -1, 0));
    assert_eq!(coords(&(&c * &d)), (1, -1, 0));
}

#[test]
fn add_commutes_and_sub_undoes_add() {
    let a = Hex::new(4, -7, 3);
    let b = Hex::new(-1, 5, -4);
    assert!(a + b == b + a);
    assert!((a + b) - b == a);
    assert!(a != b);
}

#[test]
fn hex_length_counts_steps_from_origin() {
    assert_eq!(Hex::new(1, 1, -2).hex_length(), 2);
    assert_eq!(Hex::new(2, -1, -1).hex_length(), 2);
    assert_eq!(Hex::new(0, 0, 0).hex_length(), 0);
    assert_eq!(Hex::new(-3, 0, 3).hex_length(), 3);
    let h = Hex::new(4, -7, 3);
    assert_eq!(h.hex_length(), h.distance(Hex::new(0, 0, 0)) as u32);
}

#[test]
fn hex_distance_matches_distance() {
    let a = Hex::new(1, 1, -2);
    let b = Hex::new(-2, 3, -1);
    assert_eq!(Hex::hex_distance(&a, &b), Hex::hex_distance(&b, &a));
    assert_eq!(Hex::hex_distance(&a, &b), 3);
    assert_eq!(Hex::hex_distance(&a, &b), a.distance(b) as u32);
    assert_eq!(Hex::hex_distance(&a, &a), 0);
    assert_eq!(Hex::hex_distance(&Hex::new(0, 0, 0), &Hex::new(2, -1, -1)), 2);
}

#[test]
fn directions_and_neighbors() {
    let expected = [(1, 0), (1, -1), (0, -1), (-1, 0), (-1, 1), (0, 1)];
    let center = Hex::new(2, -1, -1);
    for d in 0..6 {
        let dir = Hex::hex_direction(d);
        assert_eq!((dir.get_q(), dir.get_r()), expected[d]);
        let n = center.hex_neighbor(d);
        assert_eq!((n.get_q(), n.get_r()), (2 + expected[d].0, -1 + expected[d].1));
        assert_eq!(center.distance(n), 1);
        assert_eq!(center.distance_slow(n), 1);
        let opposite = Hex::hex_direction((d + 3) % 6);
        assert!(dir + opposite == Hex::new(0, 0, 0));
    }
}

#[test]
fn axial_subtract_matches_sub() {
    let a = Hex::new(5, -2, -3);
    let b = Hex::new(1, 4, -5);
    let d = Hex::axial_subtract(&a, &b);
    assert_eq!(coords(&d), (4, -6, 2));
    assert!(d == a - b);
}

#[test]
fn distance_agrees_with_distance_slow() {
    let hexes = [
        Hex::new(0, 0, 0),
        Hex::new(3, -1, -2),
        Hex::new(-4, 2, 2),
        Hex::new(1, 5, -6),
        Hex::new(-2, -2, 4),
    ];
    for a in hexes.iter() {
        for b in hexes.iter() {
            assert_eq!(a.distance(*b) as i32, a.distance_slow(*b));
            assert_eq!(a.distance(*b), b.distance(*a));
        }
    }
    assert_eq!(Hex::new(3, -1, -2).distance(Hex::new(-4, 2, 2)), 7);
}

#[test]
fn distance_triangle_inequality() {
    let a = Hex::new(3, -1, -2);
    let b = Hex::new(-4, 2, 2);
    let c = Hex::new(1, 5, -6);
    assert!(a.distance(c) <= a.distance(b) + b.distance(c));
}

#[test]
fn neighbors_in_range_radius_zero_and_one() {
    let c = Hex::new(2, -1, -1);
    let zero = Hex::neighbors_in_range(c, 0);
    assert_eq!(zero.len(), 1);
    assert!(zero[0] == c);
    let one = Hex::neighbors_in_range(c, 1);
    let got: Vec<(i32, i32)> = one.iter().map(|h| (h.get_q() - 2, h.get_r() + 1)).collect();
    assert_eq!(got, vec![(-1, 0), (-1, 1), (0, -1), (0, 0), (0, 1), (1, -1), (1, 0)]);
}

#[test]
fn neighbors_in_range_is_the_whole_disc() {
    let c = Hex::new(-3, 7, -4);
    for n in 0..5u16 {
        let hexes = Hex::neighbors_in_range(c, n);
        let n32 = n as i32;
        assert_eq!(hexes.len() as i32, 3 * n32 * (n32 + 1) + 1);
        for (i, h) in hexes.iter().enumerate() {
            assert!(c.distance_slow(*h) <= n32);
            for other in hexes.iter().skip(i + 1) {
                assert!(h != other);
            }
        }
        for q in -n32..=n32 {
            for r in -n32..=n32 {
                let x = Hex::new(-3 + q, 7 + r, -4 - q - r);
                let inside = c.distance_slow(x) <= n32;
                assert_eq!(hexes.iter().any(|h| *h == x), inside);
            }
        }
    }
}
