use marquee::effects::color_set::ColorSet;
use marquee::pixel::Pixel;

const RED: Pixel = Pixel { r: 253, g: 74, b: 65 };
const YELLOW: Pixel = Pixel { r: 255, g: 180, b: 47 };

fn off() -> Pixel {
    Pixel::new(0, 0, 0)
}

#[test]
fn palette_assignment_is_position_indexed() {
    // positions at a multiple of 3 or 5 take the entry under the cursor,
    // the rest advance the cursor (wrapping) and take the entry it lands on
    let mut cycler = ColorSet::new(vec![RED, YELLOW]);
    let mut leds = vec![off(); 8];
    cycler.mutate(&mut leds);
    let expected = vec![RED, YELLOW, RED, RED, YELLOW, YELLOW, YELLOW, RED];
    assert_eq!(leds, expected);
}

#[test]
fn palette_render_is_idempotent() {
    // re-rendering after arbitrary intervening mutation reproduces the
    // same per-pixel assignment
    let mut cycler = ColorSet::new(vec![RED, YELLOW]);
    let mut first = vec![off(); 13];
    cycler.mutate(&mut first);

    let mut second = vec![Pixel::new(1, 2, 3); 13];
    cycler.mutate(&mut second);
    assert_eq!(first, second);

    cycler.mutate(&mut second);
    assert_eq!(first, second);
}

#[test]
fn palette_three_colors_cycle() {
    let blue = Pixel::new(0, 0, 255);
    let mut cycler = ColorSet::new(vec![RED, YELLOW, blue]);
    let mut leds = vec![off(); 6];
    cycler.mutate(&mut leds);
    // i=0 holds (0%3): RED; i=1 advances: YELLOW; i=2 advances: blue;
    // i=3 holds (3%3): blue; i=4 advances (wrap): RED; i=5 holds (5%5): RED
    assert_eq!(leds, vec![RED, YELLOW, blue, blue, RED, RED]);
}

#[test]
fn palette_empty_slice_is_untouched() {
    let mut cycler = ColorSet::new(vec![RED, YELLOW]);
    let mut leds: Vec<Pixel> = Vec::new();
    cycler.mutate(&mut leds);
    assert!(leds.is_empty());
}
