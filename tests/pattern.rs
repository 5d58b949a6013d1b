use conway::cell::Cell;
use conway::pattern::{
    reverse_cols, reverse_rows, transposed, Beacon, Beehive, Blinker, Block, Boat, Glider, Layout,
    LightweightSpaceship, Loaf, Pattern, Pentadecathlon, Pulsar, Toad, Tub,
};

fn bits(m: &Vec<Vec<Cell>>) -> Vec<String> {
    m.iter().map(|r| r.iter().map(|c| c.symbol()).collect()).collect()
}

fn live_count(m: &Vec<Vec<Cell>>) -> usize {
    m.iter().flatten().filter(|c| matches!(c, Cell::Alive)).count()
}

#[test]
fn glider_orientations() {
    assert_eq!(bits(&Glider::BottomRight.pattern()), vec!["_#_", "__#", "###"]);
    assert_eq!(bits(&Glider::BottomLeft.pattern()), vec!["_#_", "#__", "###"]);
    assert_eq!(bits(&Glider::TopLeft.pattern()), vec!["###", "__#", "_#_"]);
    assert_eq!(bits(&Glider::TopRight.pattern()), vec!["_##", "#_#", "__#"]);
    for g in [Glider::BottomLeft, Glider::BottomRight, Glider::TopLeft, Glider::TopRight] {
        assert_eq!(live_count(&g.pattern()), 5);
        assert_eq!(g.size(), (3, 3));
    }
}

#[test]
fn spaceship_orientations() {
    assert_eq!(bits(&LightweightSpaceship::Left.pattern()), vec!["_#__#", "#____", "#___#", "####_"]);
    assert_eq!(bits(&LightweightSpaceship::Right.pattern()), vec!["#__#_", "____#", "#___#", "_####"]);
    assert_eq!(bits(&LightweightSpaceship::Top.pattern()), vec!["###_", "#__#", "#___", "#___", "_#_#"]);
    assert_eq!(bits(&LightweightSpaceship::Bottom.pattern()), vec!["#_#_", "___#", "___#", "#__#", "_###"]);
    for s in [LightweightSpaceship::Right, LightweightSpaceship::Left, LightweightSpaceship::Top, LightweightSpaceship::Bottom] {
        let m = s.pattern();
        assert_eq!(live_count(&m), 9);
        assert_eq!(s.size(), (m.len(), m[0].len()));
    }
}

#[test]
fn transforms() {
    let m = Glider::BottomRight.pattern();
    assert_eq!(bits(&reverse_rows(&m)), vec!["###", "__#", "_#_"]);
    assert_eq!(bits(&reverse_cols(&m)), vec!["_#_", "#__", "###"]);
    assert_eq!(bits(&transposed(&m)), vec!["__#", "#_#", "_##"]);
    let s = LightweightSpaceship::Left.pattern();
    let t = transposed(&s);
    assert_eq!((t.len(), t[0].len()), (5, 4));
}

#[test]
fn catalog_shapes() {
    assert_eq!(bits(&Block.pattern()), vec!["##", "##"]);
    assert_eq!(bits(&Beehive.pattern()), vec!["_##_", "#__#", "_##_"]);
    assert_eq!(bits(&Loaf.pattern()), vec!["_##_", "#__#", "_#_#", "__#_"]);
    assert_eq!(bits(&Boat.pattern()), vec!["##_", "#_#", "_#_"]);
    assert_eq!(bits(&Tub.pattern()), vec!["_#_", "#_#", "_#_"]);
    assert_eq!(bits(&Blinker::TopBottom.pattern()), vec!["_#_", "_#_", "_#_"]);
    assert_eq!(bits(&Blinker::LeftRight.pattern()), vec!["___", "###", "___"]);
    assert_eq!(bits(&Toad.pattern()), vec!["____", "_###", "###_", "____"]);
    assert_eq!(bits(&Beacon.pattern()), vec!["##__", "#___", "___#", "__##"]);
    assert_eq!(Pulsar.size(), (15, 15));
    assert_eq!(live_count(&Pulsar.pattern()), 48);
    assert_eq!(Pentadecathlon.size(), (16, 9));
    assert_eq!(live_count(&Pentadecathlon.pattern()), 28);
}

#[test]
fn layout_accessors() {
    let l = Layout::new((4, 7), Toad);
    assert_eq!(l.offset(), (4, 7));
    assert_eq!(l.size(), (4, 4));
    assert_eq!(live_count(&l.pattern()), 6);
}

#[test]
fn bits_to_matrix() {
    let m = conway::pattern::matrix_from_bits(&vec![1, 0, 0, 2, 1, 1], 2, 3);
    assert_eq!(bits(&m), vec!["#__", "_##"]);
    assert!(conway::pattern::matrix_from_bits(&vec![], 0, 4).is_empty());
}
