use conway::coord::Dim2;

#[test]
fn flat_index_is_row_major() {
    let c = Dim2::from_index(7, 5);
    assert_eq!((c.x(), c.y()), (1, 2));
    assert_eq!(c.x() * 5 + c.y(), 7);
    let c = Dim2::from_index(0, 3);
    assert_eq!((c.x(), c.y()), (0, 0));
    let c = Dim2::from_index(8, 3);
    assert_eq!((c.x(), c.y()), (2, 2));
}

#[test]
fn tuples_convert_both_ways() {
    let c: Dim2 = (4, 9).into();
    assert_eq!((c.x(), c.y()), (4, 9));
    let t: (usize, usize) = c.into();
    assert_eq!(t, (4, 9));
}
