use hex_grid::offset::Offset;

#[test]
fn test_offset_math() {
    assert_eq!(Offset::left().add(Offset::right()), Offset::zero());
    assert_eq!(Offset::up_right().add(Offset::down_left()), Offset::zero());
    assert_eq!(Offset::up_right().add(Offset::down_right()), Offset::right());
    assert_eq!(Offset::up_left().add(Offset::down_left()), Offset::left());
    assert_eq!(Offset::up_right().add(Offset::up_left()), Offset::from_pair((1, -2)));
    assert_eq!(Offset::down_right().add(Offset::down_left()), Offset::from_pair((-1, 2)));
    assert_eq!(Offset::right().add(Offset::right()), Offset::right().scale(2));
    assert_eq!(Offset::right().scale(-1), Offset::left());
    assert_eq!(Offset::right().negate(), Offset::left());
    assert_eq!(
        Offset::up_right().add(Offset::down_right()).add(Offset::left()),
        Offset::zero()
    );
    assert_eq!(
        Offset::right().sub(Offset::left()),
        Offset::right().add(Offset::right())
    );
}

#[test]
fn test_direction() {
    assert_eq!(Offset::zero().direction(), Offset::zero());
    assert_eq!(Offset::right().direction(), Offset::right());
    assert_eq!(Offset::from_pair((2, 0)).direction(), Offset::right());
    assert_eq!(Offset::from_pair((1, -2)).direction(), Offset::up_right());
    assert_eq!(Offset::from_pair((1, -3)).direction(), Offset::up_right());
}

#[test]
fn test_fill_hex() {
    assert_eq!(Offset::fill_hex(0), vec![Offset::zero()]);
    assert_eq!(
        Offset::fill_hex(1),
        vec![
            Offset::down_right(),
            Offset::down_left(),
            Offset::left(),
            Offset::up_left(),
            Offset::up_right(),
            Offset::right(),
            Offset::zero(),
        ]
    );
    assert_eq!(Offset::fill_hex(2).len(), 1 + 6 * 3);
    assert_eq!(Offset::fill_hex(3).len(), 1 + 6 * 6);
}

#[test]
fn test_fill_hex_lengths() {
    for r in 0u16..6 {
        let n = r as usize;
        assert_eq!(Offset::fill_hex(r).len(), 1 + 3 * n * (n + 1));
    }
}

#[test]
fn test_fill_hex_unique() {
    let cells = Offset::fill_hex(3);
    for i in 0..cells.len() {
        for j in 0..i {
            assert_ne!(cells[i], cells[j]);
        }
    }
}

#[test]
fn test_group_laws_on_samples() {
    let samples = vec![
        Offset::zero(),
        Offset::right(),
        Offset::down_left(),
        Offset::from_pair((3, -5)),
        Offset::from_pair((-7, 2)),
    ];
    for a in &samples {
        assert_eq!(a.add(Offset::zero()), *a);
        assert_eq!(a.add(a.negate()), Offset::zero());
        assert_eq!(a.scale(-1), a.negate());
        for b in &samples {
            assert_eq!(a.add(*b), b.add(*a));
            for c in &samples {
                assert_eq!(a.add(*b).add(*c), a.add(b.add(*c)));
            }
        }
    }
}

#[test]
fn test_direction_clamps_each_axis() {
    // Not a geometric normalization: each axis is clamped independently.
    assert_eq!(Offset::from_pair((3, -5)).direction(), Offset::from_pair((1, -1)));
    assert_eq!(Offset::from_pair((-4, 9)).direction(), Offset::from_pair((-1, 1)));
    assert_eq!(Offset::from_pair((0, -8)).direction(), Offset::up_left());
}

#[test]
fn test_scale_by_zero_and_two() {
    let a = Offset::from_pair((4, -6));
    assert_eq!(a.scale(0), Offset::zero());
    assert_eq!(a.scale(2), Offset::from_pair((8, -12)));
    assert_eq!(a.scale(-2), Offset::from_pair((-8, 12)));
}

#[test]
fn test_fill_hex_second_ring_prefix() {
    let cells = Offset::fill_hex(2);
    // The outermost ring comes first, starting one step down-left of the
    // right corner (2, 0).
    assert_eq!(cells[0], Offset::from_pair((1, 1)));
    assert_eq!(cells[1], Offset::from_pair((0, 2)));
    // The enumeration ends with the rings inward and the origin last.
    assert_eq!(cells[cells.len() - 1], Offset::zero());
    let inner: Vec<_> = cells[12..].to_vec();
    assert_eq!(inner, Offset::fill_hex(1));
}
