use boppo_core::update_loop::begin_frame;
use boppo_core::color::{Color, RGB, RGBA};
use boppo_core::{Buttons, Framebuffer, LightDir, Lights, LightsSetter};

const RED: RGB = RGB { r: 255, g: 0, b: 0 };
const BLUE: RGB = RGB { r: 0, g: 0, b: 255 };
const OFF: RGB = RGB { r: 0, g: 0, b: 0 };

#[test]
fn set_color_only_touches_the_selection() {
    let mut fb: Framebuffer = Framebuffer::new();
    assert!(fb.colors.iter().all(|c| *c == OFF));
    fb.set_color(Lights::from_indices(&[1, 5]), RED);
    for (i, c) in fb.colors.iter().enumerate() {
        assert_eq!(*c, if i == 1 || i == 5 { RED } else { OFF });
    }
    fb.clear();
    assert!(fb.colors.iter().all(|c| *c == RGB::off()));
}

#[test]
fn set_buttons_colors_in_button_order() {
    let mut fb: Framebuffer = Framebuffer::new();
    fb.set_buttons_colors(Buttons::from_indices(&[2, 0, 7]), &[RED, BLUE]);
    for i in 0..40 {
        let expected = match i / 4 {
            0 => RED,
            2 => BLUE,
            _ => OFF,
        };
        assert_eq!(fb.colors[i], expected);
    }
}

#[test]
fn blend_dim_and_map() {
    let red = Framebuffer { colors: [RED; 40] };
    let blue = Framebuffer { colors: [BLUE; 40] };
    let purple = red.blend(&blue, |a, b, _| RGB { r: a.r, g: 0, b: b.b });
    assert!(purple.colors.iter().all(|c| *c == RGB { r: 255, g: 0, b: 255 }));
    let halves = red.dim(|c, i| if i % 2 == 0 { c } else { OFF });
    assert_eq!(halves.colors[0], RED);
    assert_eq!(halves.colors[1], OFF);
    let alpha = red.map(|c| c.with_alpha(7));
    assert_eq!(alpha.colors[3], RGBA { r: 255, g: 0, b: 0, a: 7 });
    let with = blue.clone().with_alpha(9);
    assert_eq!(with.colors[0].a, 9);
    assert!(with.to_rgb() == blue);
}

#[test]
fn lights_setter_flushes_when_auto() {
    let mut setter = LightsSetter::new();
    let sent = setter.set_color(Lights::from_index(0), RED).expect("auto flush is on");
    assert_eq!(sent[0], RED);
    assert_eq!(sent[1], OFF);
    let guard = setter.pause_auto_flush();
    assert_eq!(setter.set_color(Lights::from_index(1), BLUE), None);
    assert_eq!(setter.get_currently_set().colors[1], BLUE);
    let sent = guard.release(&mut setter);
    assert_eq!(sent[1], BLUE);
    assert!(setter.set_color(Lights::none(), RED).is_some());
    setter.set_auto_flush(false);
    let guard = setter.pause_auto_flush();
    let _ = guard.release(&mut setter);
    assert_eq!(setter.set_color(Lights::none(), RED), None);
}

#[test]
fn lights_setter_colors_on_selection() {
    let mut setter = LightsSetter::new();
    let mut colors = [OFF; 40];
    colors[4] = RED;
    colors[6] = BLUE;
    let sent = setter.set_colors_on_selection(Lights::from_index(4), &colors).unwrap();
    assert_eq!(sent[4], RED);
    assert_eq!(sent[6], OFF);
    let sent = setter
        .set_colors_on(Buttons::from_index(1).lights_on(LightDir::Top) | Lights::from_index(9), &[BLUE, RED, RED])
        .unwrap();
    assert_eq!(sent[4], BLUE);
    assert_eq!(sent[9], RED);
    let sent = setter.set_all_colors(&[BLUE; 40]).unwrap();
    assert_eq!(sent, [BLUE; 40]);
    assert_eq!(setter.flush(), [BLUE; 40]);
}

#[test]
fn color_and_framebuffer_arithmetic() {
    let a = RGB::new(10, 20, 30);
    let b = RGB::new(1, 2, 3);
    assert_eq!(a + b, RGB::new(11, 22, 33));
    assert_eq!(a - b, RGB::new(9, 18, 27));
    assert_eq!(b * RGB::new(2, 3, 4), RGB::new(2, 6, 12));
    assert_eq!(
        RGBA::new(1, 2, 3, 4) + RGBA::new(10, 10, 10, 10),
        RGBA::new(11, 12, 13, 14)
    );
    assert_eq!(
        RGBA::new(11, 12, 13, 14) - RGBA::new(10, 10, 10, 10),
        RGBA::new(1, 2, 3, 4)
    );

    let mut fa = Framebuffer::<RGB>::new();
    fa.set_all_colors(&[a; 40]);
    let mut fb = Framebuffer::<RGB>::new();
    fb.set_color(Lights::from_index(5), b);
    let sum = fa.clone() + fb.clone();
    assert_eq!(sum.colors[5], RGB::new(11, 22, 33));
    assert_eq!(sum.colors[6], a);
    let diff = fa.clone() - fb.clone();
    assert_eq!(diff.colors[5], RGB::new(9, 18, 27));
    assert_eq!(diff.colors[0], a);
    let prod = fa * fb;
    assert_eq!(prod.colors[5], RGB::new(10, 40, 90));
    assert_eq!(prod.colors[0], RGB::off());
}

#[test]
fn combine_goes_light_by_light() {
    let mut current = Framebuffer::<RGB>::new();
    current.set_color(Lights::from_index(1), RED);
    let mut top = Framebuffer::<RGBA>::new();
    top.set_color(Lights::from_index(2), BLUE.with_alpha(255));
    let out = current.combine(&top, |i, c, t| if t.a == 255 { t.rgb() } else if i == 0 { BLUE } else { c });
    assert_eq!(out.colors[0], BLUE);
    assert_eq!(out.colors[1], RED);
    assert_eq!(out.colors[2], BLUE);
    assert_eq!(out.colors[3], RGB::off());
}

#[test]
fn begin_frame_pauses_and_clears() {
    let mut setter = LightsSetter::new();
    let _ = setter.set_color(Lights::from_index(7), RED);
    let guard = begin_frame(&mut setter, false);
    assert_eq!(setter.get_currently_set().colors[7], RED);
    assert_eq!(setter.set_color(Lights::from_index(8), BLUE), None);
    let flushed = guard.release(&mut setter);
    assert_eq!(flushed[7], RED);
    assert_eq!(flushed[8], BLUE);
    assert!(setter.set_color(Lights::from_index(8), BLUE).is_some());

    let guard = begin_frame(&mut setter, true);
    assert!(setter.get_currently_set().colors.iter().all(|c| *c == RGB::off()));
    let flushed = guard.release(&mut setter);
    assert_eq!(flushed, [RGB::off(); 40]);
}

#[test]
fn lights_setter_flush_blend_flushes_once() {
    let mut setter = LightsSetter::new();
    setter.set_auto_flush(false);
    let _ = setter.set_color(Lights::from_index(0), RED);
    let mut top = Framebuffer::<RGB>::new();
    top.set_color(Lights::from_index(1), BLUE);
    let flushed = setter.flush_blend(&top, |i, cur, new| if i == 1 { new } else { cur });
    assert_eq!(flushed[0], RED);
    assert_eq!(flushed[1], BLUE);
    assert_eq!(flushed[2], RGB::off());
    assert_eq!(setter.get_currently_set().colors, flushed);
    // Auto flush stays off.
    assert_eq!(setter.set_color(Lights::from_index(3), RED), None);
}
