use hex_grid::coordinate::Coordinate;
use hex_grid::offset::Offset;

#[test]
fn test_coord_plus_offset_list() {
    let coord = Coordinate::center().add(Offset::up_right());
    let offsets = vec![Offset::left(), Offset::zero(), Offset::right()];
    let coords = coord.add_all(&offsets);
    assert_eq!(
        coords,
        vec![
            coord.add(Offset::left()),
            coord.add(Offset::zero()),
            coord.add(Offset::right()),
        ]
    );
    assert_eq!(coord.add_all(&offsets), coords);
}

#[test]
fn test_sub() {
    let offset = Coordinate::center().add(Offset::right()).sub(Coordinate::from_pair((0, 0)));
    assert_eq!(offset, Offset::from_pair((1, 0)));
}

#[test]
fn test_third_axis() {
    assert_eq!(Coordinate::center().z(), 0);
    assert_eq!(Coordinate::from_pair((3, -5)).z(), 2);
    assert_eq!(Coordinate::from_pair((-2, -2)).z(), 4);
    assert_eq!(Coordinate::calculate_3rd((7, -3)), -4);
    // The cube invariant holds for every cell: x + y + z == 0.
    let c = Coordinate::from_pair((11, -4));
    assert_eq!(c.x + c.y + c.z(), 0);
}

#[test]
fn test_resolve_rounding_keeps_axes_on_z_error() {
    // z carries the largest rounding error (or ties): x and y stand.
    let c = Coordinate::resolve_rounding(2, -1, -1, false, false);
    assert_eq!(c, Coordinate::from_pair((2, -1)));
    assert_eq!(c.x + c.y + c.z(), 0);
}

#[test]
fn test_resolve_rounding_recomputes_y() {
    // y carries the largest rounding error: it is rebuilt from x and z.
    let c = Coordinate::resolve_rounding(2, 0, -1, false, true);
    assert_eq!(c, Coordinate::from_pair((2, -1)));
    assert_eq!(c.x + c.y + c.z(), 0);
}

#[test]
fn test_resolve_rounding_recomputes_x() {
    // x carries the strictly largest rounding error: it is rebuilt from y and z.
    let c = Coordinate::resolve_rounding(3, -1, -1, true, false);
    assert_eq!(c, Coordinate::from_pair((2, -1)));
    assert_eq!(c.x + c.y + c.z(), 0);
}

#[test]
fn test_fill_hex_around_center() {
    let center = Coordinate::from_pair((10, -3));
    let cells = center.add_all(&Offset::fill_hex(1));
    assert_eq!(cells.len(), 7);
    assert_eq!(cells[0], Coordinate::from_pair((10, -2)));
    assert_eq!(cells[6], center);
}
