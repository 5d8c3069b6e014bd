use boppo_core::{Button, Buttons, Column, LightDir, Lights, Row};

#[test]
fn buttons_test_test_invert() {
    assert_eq!(Buttons::row(Row::Top).invert(), Buttons::row(Row::Bottom));
    assert_eq!(Buttons::all().invert(), Buttons::none());
}

#[test]
fn test_indices_rows() {
    assert_eq!(Buttons::row(Row::Top).indices().into_vec(), vec![0, 1, 2, 3, 4]);
    assert_eq!(Buttons::row(Row::Bottom).indices().into_vec(), vec![5, 6, 7, 8, 9]);
}

#[test]
fn test_indices_column() {
    assert_eq!(Buttons::column(Column::C0).indices().into_vec(), vec![0, 5]);
    assert_eq!(Buttons::column(Column::C2).indices().into_vec(), vec![2, 7]);
    assert_eq!(Buttons::column(Column::C4).indices().into_vec(), vec![4, 9]);
}

#[test]
fn buttons_test_test_indices_reverse() {
    let mut iter = Buttons::none().indices();
    assert_eq!(iter.next_back(), None);

    let mut iter = Buttons::from_indices(&[0_usize]).indices();
    assert_eq!(iter.next_back(), Some(0));
    assert_eq!(iter.next_back(), None);

    let mut iter = Buttons::all().indices();
    assert_eq!(iter.next(), Some(0));
    assert_eq!(iter.next_back(), Some(9));
    assert_eq!(iter.next_back(), Some(8));
    assert_eq!(iter.next(), Some(1));
    assert_eq!(iter.next_back(), Some(7));
    assert_eq!(iter.next_back(), Some(6));
    assert_eq!(iter.next(), Some(2));
    assert_eq!(iter.next_back(), Some(5));
    assert_eq!(iter.next_back(), Some(4));
    assert_eq!(iter.next_back(), Some(3));
    assert_eq!(iter.next_back(), None);
}

#[test]
fn buttons_test_test_rotate_180() {
    assert_eq!(Buttons::from_index(0).rotate_180(), Buttons::from_index(9));
    assert_eq!(Buttons::from_index(1).rotate_180(), Buttons::from_index(8));
    assert_eq!(Buttons::from_index(3).rotate_180(), Buttons::from_index(6));
    assert_eq!(Buttons::from_index(4).rotate_180(), Buttons::from_index(5));
    assert_eq!(Buttons::from_index(5).rotate_180(), Buttons::from_index(4));
    assert_eq!(
        Buttons::from_indices(&[0, 8]).rotate_180(),
        Buttons::from_indices(&[1, 9])
    );
    assert_eq!(Buttons::all().rotate_180(), Buttons::all());
    assert_eq!(Buttons::none().rotate_180(), Buttons::none());
}

#[test]
fn buttons_constructors_and_queries() {
    let s = Buttons::from_slice(&[true, false, true]);
    assert_eq!(s.as_bitset(), 0b101);
    assert_eq!(s.len(), 2);
    assert!(!s.is_empty());
    assert!(Buttons::none().is_empty());
    assert_eq!(Buttons::all().len(), 10);
    assert_eq!(Buttons::all().as_bitset(), 0b11_1111_1111);
    assert_eq!(Buttons::from_bitset(0b1_0000_0001), Buttons::from_indices(&[0, 8]));
    assert!(s.contains(Button::B2));
    assert!(!s.contains(Button::B1));
    assert!(Buttons::all().is_superset(s));
    assert!(s.is_subset(Buttons::all()));
    assert!(!s.is_superset(Buttons::all()));
    assert_eq!(Buttons::row(Row::Top).as_bitset(), 0b1_1111);
    assert_eq!(Buttons::row(Row::Bottom).as_bitset(), 0b11_1110_0000);
}

#[test]
fn buttons_set_operators() {
    let a = Buttons::from_indices(&[0, 1, 2]);
    let b = Buttons::from_indices(&[2, 3]);
    assert_eq!(a & b, Buttons::from_index(2));
    assert_eq!(a | b, Buttons::from_indices(&[0, 1, 2, 3]));
    assert_eq!(a ^ b, Buttons::from_indices(&[0, 1, 3]));
    assert_eq!(!a, Buttons::from_indices(&[3, 4, 5, 6, 7, 8, 9]));
    assert_eq!(!!a, a);
    assert_eq!(a.invert().len() + a.len(), 10);
}

#[test]
fn buttons_iteration_in_order() {
    let s = Buttons::from_indices(&[7, 2, 5]);
    let mut it = s.iter();
    assert_eq!(it.next(), Some(Button::B2));
    assert_eq!(it.next_back(), Some(Button::B7));
    assert_eq!(it.next(), Some(Button::B5));
    assert_eq!(it.next(), None);
    let mut it = s.buttons();
    assert_eq!(it.next_back(), Some(Button::B7));
}

#[test]
fn buttons_lights() {
    assert_eq!(Buttons::from_index(1).lights().as_bitset(), 0b1111_0000);
    assert_eq!(
        Buttons::from_indices(&[0, 9]).lights_on(LightDir::Bottom),
        Lights::from_indices(&[3, 39])
    );
}

#[test]
fn random_choices_stay_in_the_selection() {
    let s = Buttons::from_indices(&[1, 4, 6, 8]);
    for _ in 0..20 {
        let two = s.choose_n_randomly(2);
        assert_eq!(two.len(), 2);
        assert!(two.is_subset(s));
        let all = s.choose_n_randomly(10);
        assert_eq!(all, s);
        let one = s.choose_one_randomly();
        assert!(s.contains(one));
    }
    assert_eq!(Buttons::none().choose_n_randomly(3), Buttons::none());
}

#[test]
fn buttons_assign_operators() {
    let mut s = Buttons::from_indices(&[1, 2, 3]);
    s &= Buttons::from_indices(&[2, 3, 4]);
    assert_eq!(s, Buttons::from_indices(&[2, 3]));
    s |= Buttons::from_index(9);
    assert_eq!(s, Buttons::from_indices(&[2, 3, 9]));
    s ^= Buttons::from_indices(&[3, 4]);
    assert_eq!(s, Buttons::from_indices(&[2, 4, 9]));
    let mut l = Lights::from_indices(&[0, 39]);
    l &= Lights::from_index(39);
    assert_eq!(l, Lights::from_index(39));
    l |= Lights::from_index(1);
    assert_eq!(l, Lights::from_indices(&[1, 39]));
    l ^= Lights::from_index(1);
    assert_eq!(l, Lights::from_index(39));
}
