use hexsim::{uv_debug_texture_data, HexCoordinate, TEXTURE_SIZE};

#[test]
fn distance_is_symmetric_and_zero_on_self() {
    let a = HexCoordinate::new(3, -7);
    let b = HexCoordinate::new(-2, 4);
    assert_eq!(a.distance(&b), b.distance(&a));
    assert_eq!(a.distance(&a), 0);
    assert_eq!(b.distance(&b), 0);
}

#[test]
fn distance_exact_values() {
    let o = HexCoordinate::new(0, 0);
    assert_eq!(o.distance(&HexCoordinate::new(2, 0)), 2);
    assert_eq!(o.distance(&HexCoordinate::new(2, -1)), 2);
    assert_eq!(o.distance(&HexCoordinate::new(1, 1)), 2);
    assert_eq!(o.distance(&HexCoordinate::new(3, -3)), 3);
    assert_eq!(HexCoordinate::new(3, -7).distance(&HexCoordinate::new(-2, 4)), 11);
}

#[test]
fn distance_at_the_integer_limits() {
    let a = HexCoordinate::new(i32::MIN, i32::MAX);
    let b = HexCoordinate::new(i32::MAX, i32::MIN);
    let expected = 2 * (i32::MAX as i64) + 1;
    assert_eq!(a.distance(&b), expected);
    assert_eq!(b.distance(&a), expected);
}

#[test]
fn add_sums_components() {
    let a = HexCoordinate::new(2, -5);
    let b = HexCoordinate::new(-3, 1);
    assert_eq!(a.add(&b), HexCoordinate::new(-1, -4));
}

#[test]
fn neighbors_clockwise_from_east() {
    let n = HexCoordinate::new(0, 0).neighbors();
    let expected = vec![
        HexCoordinate::new(1, 0),
        HexCoordinate::new(0, 1),
        HexCoordinate::new(-1, 1),
        HexCoordinate::new(-1, 0),
        HexCoordinate::new(0, -1),
        HexCoordinate::new(1, -1),
    ];
    assert_eq!(n, expected);
    let c = HexCoordinate::new(4, -2);
    for h in c.neighbors() {
        assert_eq!(c.distance(&h), 1);
    }
}

#[test]
fn step_toward_breaks_ties_by_direction_order() {
    let goal = HexCoordinate::new(3, -1);
    // east and north-east are equally near; east comes first
    assert_eq!(HexCoordinate::new(0, 0).step_toward(&goal), HexCoordinate::new(1, 0));
    assert_eq!(HexCoordinate::new(1, 0).step_toward(&goal), HexCoordinate::new(2, 0));
    assert_eq!(HexCoordinate::new(2, 0).step_toward(&goal), HexCoordinate::new(3, -1));
    // at the goal every neighbour is equally near: the step goes east
    assert_eq!(goal.step_toward(&goal), HexCoordinate::new(4, -1));
    assert_eq!(HexCoordinate::new(4, -1).step_toward(&goal), goal);
}

#[test]
fn step_toward_gets_one_closer() {
    let goal = HexCoordinate::new(-4, 7);
    let mut p = HexCoordinate::new(5, -3);
    let mut d = p.distance(&goal);
    while d > 0 {
        p = p.step_toward(&goal);
        let nd = p.distance(&goal);
        assert_eq!(nd, d - 1);
        d = nd;
    }
    assert_eq!(p, goal);
}

#[test]
fn step_toward_at_the_integer_limit() {
    let p = HexCoordinate::new(i32::MAX, 0);
    let goal = HexCoordinate::new(i32::MAX, 5);
    assert_eq!(p.step_toward(&goal), HexCoordinate::new(i32::MAX, 1));
}

#[test]
fn texture_rows_turn_the_palette() {
    let data = uv_debug_texture_data();
    assert_eq!(data.len(), TEXTURE_SIZE * TEXTURE_SIZE * 4);
    let palette: [u8; 32] = [
        255, 102, 159, 255, 255, 159, 102, 255, 236, 255, 102, 255, 121, 255, 102, 255, 102, 255,
        198, 255, 102, 198, 255, 255, 121, 102, 255, 255, 236, 102, 255, 255,
    ];
    let mut row = palette;
    for y in 0..TEXTURE_SIZE {
        assert_eq!(&data[y * 32..(y + 1) * 32], &row[..]);
        row.rotate_right(4);
    }
    assert_eq!(&data[32..36], &[236, 102, 255, 255]);
}
