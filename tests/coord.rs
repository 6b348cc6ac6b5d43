use automancy_core::coord::{TileCoord, BOTTOM_LEFT, BOTTOM_RIGHT, LEFT, RIGHT, TOP_LEFT, TOP_RIGHT};
use hexagon_tiles::tools::HexDirection;

#[test]
fn new_derives_s() {
    let c = TileCoord::new(3, -5);
    assert_eq!(c.q(), 3);
    assert_eq!(c.r(), -5);
    assert_eq!(c.s(), 2);
}

#[test]
fn zero_is_origin() {
    let z = TileCoord::zero();
    assert_eq!((z.q(), z.r(), z.s()), (0, 0, 0));
}

#[test]
fn add_is_associative_and_commutative() {
    let a = TileCoord::new(1, 2);
    let b = TileCoord::new(-4, 7);
    let c = TileCoord::new(10, -3);
    assert_eq!(a.add(b).add(c), a.add(b.add(c)));
    assert_eq!(a.add(b), b.add(a));
    assert_eq!(a.add(b), TileCoord::new(-3, 9));
}

#[test]
fn zero_and_inverse() {
    let a = TileCoord::new(6, -11);
    assert_eq!(a.add(TileCoord::zero()), a);
    assert_eq!(a.add(a.neg()), TileCoord::zero());
}

#[test]
fn cube_constraint_after_operations() {
    let a = TileCoord::new(7, -2);
    let b = TileCoord::new(-3, 5);
    for c in [a.add(b), a.sub(b), a.neg(), a.mul(3), a.div(2), a.div(-3)] {
        assert_eq!(c.q() + c.r() + c.s(), 0);
    }
}

#[test]
fn sub_and_mul_values() {
    let a = TileCoord::new(7, -2);
    let b = TileCoord::new(-3, 5);
    assert_eq!(a.sub(b), TileCoord::new(10, -7));
    assert_eq!(a.mul(-2), TileCoord::new(-14, 4));
}

#[test]
fn div_truncates_toward_zero() {
    let a = TileCoord::new(7, -5);
    let d = a.div(2);
    assert_eq!((d.q(), d.r(), d.s()), (3, -2, -1));
    let e = TileCoord::new(-7, 7).div(-2);
    assert_eq!((e.q(), e.r(), e.s()), (3, -3, 0));
}

#[test]
fn distance_laws() {
    let a = TileCoord::new(0, 0);
    let b = TileCoord::new(3, -1);
    let c = TileCoord::new(-2, 4);
    assert_eq!(a.distance(a), 0);
    assert_eq!(a.distance(b), 3);
    assert_eq!(b.distance(a), 3);
    assert_eq!(b.distance(c), 5);
    assert!(a.distance(c) <= a.distance(b) + b.distance(c));
}

#[test]
fn distance_extremes() {
    let a = TileCoord::new(i32::MAX, 0);
    let b = TileCoord::new(i32::MIN + 1, 0);
    assert_eq!(a.distance(b), u32::MAX - 1);
}

#[test]
fn neighbors_distinct_and_opposite() {
    for i in 0..6usize {
        for j in 0..6usize {
            if i != j {
                assert_ne!(TileCoord::neighbor(i), TileCoord::neighbor(j));
            }
        }
        assert_eq!(TileCoord::neighbor(i), TileCoord::neighbor((i + 3) % 6).neg());
        assert_eq!(TileCoord::zero().distance(TileCoord::neighbor(i)), 1);
    }
}

#[test]
fn neighbors_match_hexagon_tiles() {
    for i in 0..6usize {
        let h = HexDirection::direction(i as i32);
        let c = TileCoord::neighbor(i);
        assert_eq!((c.q(), c.r(), c.s()), (h.q(), h.r(), h.s()));
    }
}

#[test]
fn wire_round_trip() {
    for c in [TileCoord::new(4, -9), TileCoord::zero(), TileCoord::new(i32::MIN, i32::MAX)] {
        let p = c.to_pair();
        assert_eq!(TileCoord::from_pair(p), Some(c));
    }
    assert_eq!(TileCoord::new(4, -9).to_pair(), (4, -9));
}

#[test]
fn wire_rejects_unrepresentable_s() {
    assert_eq!(TileCoord::from_pair((i32::MIN, 0)), None);
    assert_eq!(TileCoord::from_pair((i32::MIN, -1)), None);
}

#[test]
fn formal_string() {
    assert_eq!(TileCoord::new(12, -3).to_formal_string(), "12,-3");
    assert_eq!(TileCoord::zero().to_formal_string(), "0,0");
}

#[test]
fn named_directions() {
    use_directions();
}

fn use_directions() {
    use_pair(LEFT, RIGHT);
    use_pair(TOP_LEFT, BOTTOM_RIGHT);
    use_pair(TOP_RIGHT, BOTTOM_LEFT);
    assert_eq!(TileCoord::neighbor(TOP_RIGHT).to_pair(), (0, -1));
}

fn use_pair(a: usize, b: usize) {
    assert_eq!(TileCoord::neighbor(a), TileCoord::neighbor(b).neg());
}
