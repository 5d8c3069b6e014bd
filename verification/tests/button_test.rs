use boppo_core::{Button, Buttons, Column, LightDir, Lights, Row};

#[test]
fn test_above() {
    assert_eq!(Button::B0.above(), None);
    assert_eq!(Button::B1.above(), None);
    assert_eq!(Button::B2.above(), None);
    assert_eq!(Button::B3.above(), None);
    assert_eq!(Button::B4.above(), None);
    assert_eq!(Button::B5.above(), Some(Button::B0));
    assert_eq!(Button::B6.above(), Some(Button::B1));
    assert_eq!(Button::B7.above(), Some(Button::B2));
    assert_eq!(Button::B8.above(), Some(Button::B3));
    assert_eq!(Button::B9.above(), Some(Button::B4));
}

#[test]
fn test_below() {
    assert_eq!(Button::B0.below(), Some(Button::B5));
    assert_eq!(Button::B1.below(), Some(Button::B6));
    assert_eq!(Button::B2.below(), Some(Button::B7));
    assert_eq!(Button::B3.below(), Some(Button::B8));
    assert_eq!(Button::B4.below(), Some(Button::B9));
    assert_eq!(Button::B5.below(), None);
    assert_eq!(Button::B6.below(), None);
    assert_eq!(Button::B7.below(), None);
    assert_eq!(Button::B8.below(), None);
    assert_eq!(Button::B9.below(), None);
}

#[test]
fn test_left() {
    assert_eq!(Button::B0.left(), None);
    assert_eq!(Button::B1.left(), Some(Button::B0));
    assert_eq!(Button::B2.left(), Some(Button::B1));
    assert_eq!(Button::B3.left(), Some(Button::B2));
    assert_eq!(Button::B4.left(), Some(Button::B3));
    assert_eq!(Button::B5.left(), None);
    assert_eq!(Button::B6.left(), Some(Button::B5));
    assert_eq!(Button::B7.left(), Some(Button::B6));
    assert_eq!(Button::B8.left(), Some(Button::B7));
    assert_eq!(Button::B9.left(), Some(Button::B8));
}

#[test]
fn test_right() {
    assert_eq!(Button::B0.right(), Some(Button::B1));
    assert_eq!(Button::B1.right(), Some(Button::B2));
    assert_eq!(Button::B2.right(), Some(Button::B3));
    assert_eq!(Button::B3.right(), Some(Button::B4));
    assert_eq!(Button::B4.right(), None);
    assert_eq!(Button::B5.right(), Some(Button::B6));
    assert_eq!(Button::B6.right(), Some(Button::B7));
    assert_eq!(Button::B7.right(), Some(Button::B8));
    assert_eq!(Button::B8.right(), Some(Button::B9));
    assert_eq!(Button::B9.right(), None);
}

#[test]
fn from_index_examples() {
    assert_eq!(Button::from_index(6), Button::B6);
    assert_eq!(Row::from_index(0), Row::Top);
    assert_eq!(Row::from_index(1), Row::Bottom);
    assert_eq!(Column::from_index(2), Column::C2);
}

#[test]
fn clockwise_examples() {
    assert_eq!(Button::B3.next_clockwise(), Button::B4);
    assert_eq!(Button::B4.next_clockwise(), Button::B9);
    assert_eq!(Button::B5.next_clockwise(), Button::B0);
    assert_eq!(Button::B9.next_clockwise(), Button::B8);
    assert_eq!(Button::B1.next_counterclockwise(), Button::B0);
    assert_eq!(Button::B8.next_counterclockwise(), Button::B9);
    assert_eq!(Button::B0.next_counterclockwise(), Button::B5);
    assert_eq!(Button::B9.next_counterclockwise(), Button::B4);
}

#[test]
fn clockwise_cycle_visits_every_button() {
    let mut b = Button::B2;
    let mut seen = Vec::new();
    for _ in 0..10 {
        seen.push(b.index());
        assert_eq!(b.next_clockwise().next_counterclockwise(), b);
        b = b.next_clockwise();
    }
    assert_eq!(b, Button::B2);
    seen.sort();
    assert_eq!(seen, (0..10).collect::<Vec<_>>());
}

#[test]
fn rows_columns_and_rotation() {
    for i in 0..Button::COUNT {
        let b = Button::from_index(i);
        assert_eq!(b.index(), i);
        assert_eq!(Button::from_row_col(b.row(), b.col()), b);
        assert_eq!(b.rotate_180().rotate_180(), b);
        assert_eq!(b.rotate_180().index(), 9 - i);
    }
    assert_eq!(Button::B7.row(), Row::Bottom);
    assert_eq!(Button::B7.col(), Column::C2);
    assert_eq!(Row::Top.opposite(), Row::Bottom);
    assert_eq!(Row::Bottom.opposite(), Row::Top);
    let cols = Column::all();
    for (i, c) in cols.iter().enumerate() {
        assert_eq!(c.index(), i);
    }
}

#[test]
fn button_selections() {
    assert_eq!(Button::B3.to_buttons(), Buttons::from_index(3));
    assert_eq!(Button::B3.to_lights().as_bitset(), 0b1111 << 12);
    assert_eq!(Button::B1.light_at(LightDir::Right), Lights::from_index(6));
    assert_eq!(Buttons::from(Button::B4), Buttons::from_index(4));
    assert_eq!(Lights::from(Button::B2), Lights::all_from_button(Button::B2));
    let r = Button::random();
    assert!(r.index() < Button::COUNT);
}
