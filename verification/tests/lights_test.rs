use boppo_core::{Button, Buttons, Column, LightDir, Lights, Row};

#[test]
fn lights_test_test_invert() {
    assert_eq!(Lights::all().invert(), Lights::none());
    let one = Lights::from_index(1);
    let one_inverted = one.invert();
    assert_eq!(one_inverted.len(), 39);
    assert_eq!(one_inverted.as_bitset() & 0x2, 0);
}

#[test]
fn lights_test_test_indices_reverse() {
    let mut iter = Lights::none().indices();
    assert_eq!(iter.next_back(), None);

    let mut iter = Lights::from_indices(&[0_usize]).indices();
    assert_eq!(iter.next_back(), Some(0));
    assert_eq!(iter.next_back(), None);

    let mut iter = Lights::all().indices();
    assert_eq!(iter.next(), Some(0));
    assert_eq!(iter.next_back(), Some(39));
    assert_eq!(iter.next_back(), Some(38));
    assert_eq!(iter.next(), Some(1));
    assert_eq!(iter.next_back(), Some(37));
    assert_eq!(iter.next_back(), Some(36));
    assert_eq!(iter.next(), Some(2));
}

#[test]
fn lights_test_test_rotate_180() {
    assert_eq!(Lights::from_index(0).rotate_180(), Lights::from_index(39));
    assert_eq!(Lights::from_index(1).rotate_180(), Lights::from_index(38));
    assert_eq!(Lights::from_index(3).rotate_180(), Lights::from_index(36));
    assert_eq!(Lights::from_index(4).rotate_180(), Lights::from_index(35));
    assert_eq!(Lights::from_index(5).rotate_180(), Lights::from_index(34));
    assert_eq!(Lights::from_index(0), Lights::from_index(39).rotate_180());
    assert_eq!(Lights::from_index(1), Lights::from_index(38).rotate_180());
    assert_eq!(Lights::from_index(3), Lights::from_index(36).rotate_180());
    assert_eq!(Lights::from_index(4), Lights::from_index(35).rotate_180());
    assert_eq!(Lights::from_index(5), Lights::from_index(34).rotate_180());
    assert_eq!(
        Lights::from_indices(&[0, 8]).rotate_180(),
        Lights::from_indices(&[31, 39])
    );
    assert_eq!(Lights::all().rotate_180(), Lights::all());
    assert_eq!(Lights::none().rotate_180(), Lights::none());
}

#[test]
fn test_from_buttons() {
    let lights: Lights = Buttons::from_index(0).into();
    assert_eq!(lights, Lights::all_from_button(Button::from_index(0)));

    let lights: Lights = Buttons::from_index(9).into();
    assert_eq!(lights, Lights::all_from_button(Button::from_index(9)));

    let lights: Lights = Buttons::column(Column::C0).into();
    assert_eq!(lights, Lights::from_bitset(0b1111_0000_0000_0000_0000_1111));

    let lights: Lights = Buttons::row(Row::Top).into();
    assert_eq!(lights, Lights::from_bitset(0b1111_1111_1111_1111_1111));

    let lights: Lights = Buttons::row(Row::Bottom).into();
    assert_eq!(
        lights,
        Lights::from_bitset(0b1111_1111_1111_1111_1111_0000_0000_0000_0000_0000)
    );

    let lights: Lights = Buttons::all().into();
    assert_eq!(lights, Lights::all());
}

#[test]
fn light_on_all_buttons_matches_only() {
    let all_lights = Lights::all();
    let top_lights = LightDir::Top.light_on_all_buttons();
    assert_eq!(top_lights, all_lights.only(LightDir::Top));
    assert_eq!(top_lights.as_bitset(), 0x11111_11111);
    assert_eq!(LightDir::Left.light_on_all_buttons().as_bitset(), 0x22222_22222);
    assert_eq!(LightDir::Right.light_on_all_buttons().as_bitset(), 0x44444_44444);
    assert_eq!(LightDir::Bottom.light_on_all_buttons().as_bitset(), 0x88888_88888);
}

#[test]
fn light_dirs_turn() {
    let dirs = LightDir::all_clockwise_from_top();
    assert_eq!(dirs, [LightDir::Top, LightDir::Right, LightDir::Bottom, LightDir::Left]);
    for d in dirs {
        assert_eq!(d.clockwise().counter_clockwise(), d);
        assert_eq!(d.clockwise().clockwise().clockwise().clockwise(), d);
    }
    assert_eq!(LightDir::from_index(2), Some(LightDir::Right));
    assert_eq!(LightDir::from_index(4), None);
}

#[test]
fn lights_queries_and_operators() {
    let s = Lights::from_slice(&[false, true, true]);
    assert_eq!(s.as_bitset(), 0b110);
    assert_eq!(s.len(), 2);
    assert!(Lights::all().is_superset(s));
    assert!(Lights::all().is_subset(s));
    assert!(!s.is_subset(Lights::all()));
    assert!(!Lights::none().is_subset(Lights::all()));
    assert!(Lights::none().is_empty());
    assert_eq!(s & Lights::from_index(2), Lights::from_index(2));
    assert_eq!(s | Lights::from_index(0), Lights::from_indices(&[0, 1, 2]));
    assert_eq!(s ^ Lights::from_index(1), Lights::from_index(2));
    assert_eq!((!s).len(), 38);
    assert_eq!(s.indices().into_vec(), vec![1, 2]);
    let chosen = Lights::all().choose_n_randomly(5);
    assert_eq!(chosen.len(), 5);
}
