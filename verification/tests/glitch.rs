use marquee::animations::glitch::Glitch;
use marquee::pixel::Pixel;

const RED: Pixel = Pixel { r: 253, g: 74, b: 65 };
const YELLOW: Pixel = Pixel { r: 255, g: 180, b: 47 };
const SEED: u64 = 361279846193;

fn off() -> Pixel {
    Pixel::new(0, 0, 0)
}

fn make_glitch(seed: u64) -> Glitch {
    // a 150-frame cycle: solid before frame 20 and on frames 31..=45,
    // flickering on frames 75..125, odd pixels dark the rest of the time
    Glitch::new(vec![RED, YELLOW], 150, 20, 30, 45, 75, 125, seed)
}

/// The position-indexed palette assignment for a two-color palette, as the
/// palette cycler distributes it.
fn base_color(i: usize) -> Pixel {
    let mut cursor = 0usize;
    let mut steps = 0usize;
    for j in 0..=i {
        if j % 3 == 0 || j % 5 == 0 {
            cursor = steps % 2;
        } else {
            steps += 1;
            cursor = steps % 2;
        }
    }
    if cursor == 0 {
        RED
    } else {
        YELLOW
    }
}

fn faded(p: Pixel, level: usize) -> Pixel {
    let ch = |c: u8| -> u8 {
        if level == 0 {
            c
        } else if level == 9 {
            0
        } else {
            c - (c / 9) * (level as u8)
        }
    };
    Pixel::new(ch(p.r), ch(p.g), ch(p.b))
}

#[test]
fn hold_phase_shows_solid_palette_colors() {
    let mut g = make_glitch(SEED);
    let mut canvas = vec![off(); 12];
    g.render_frame(&mut canvas, 0);
    for i in 0..12 {
        assert_eq!(canvas[i], base_color(i));
    }
    // the second hold window behaves the same
    g.render_frame(&mut canvas, 40);
    for i in 0..12 {
        assert_eq!(canvas[i], base_color(i));
    }
}

#[test]
fn outside_all_windows_odd_pixels_are_off() {
    let mut g = make_glitch(SEED);
    let mut canvas = vec![off(); 12];
    g.render_frame(&mut canvas, 60);
    for i in 0..12 {
        if i % 2 == 0 {
            assert_eq!(canvas[i], base_color(i));
        } else {
            assert_eq!(canvas[i], off());
        }
    }
}

#[test]
fn glitch_window_flickers_only_odd_pixels_within_levels() {
    let mut g = make_glitch(SEED);
    let mut canvas = vec![off(); 12];
    g.render_frame(&mut canvas, 80);
    for i in 0..12 {
        if i % 2 == 0 {
            assert_eq!(canvas[i], base_color(i));
        } else {
            let levels: Vec<Pixel> = (0..10).map(|l| faded(base_color(i), l)).collect();
            assert!(
                levels.contains(&canvas[i]),
                "pixel {} is not a faded base color",
                i
            );
        }
    }
}

#[test]
fn same_seed_same_clock_sequence_is_fully_reproducible() {
    let mut g1 = make_glitch(SEED);
    let mut g2 = make_glitch(SEED);
    for frame in 0..150usize {
        let mut c1 = vec![off(); 16];
        let mut c2 = vec![off(); 16];
        g1.render_frame(&mut c1, frame);
        g2.render_frame(&mut c2, frame);
        assert_eq!(c1, c2, "frame {} differs", frame);
    }
}

#[test]
fn different_seeds_agree_outside_the_glitch_window() {
    let mut g1 = make_glitch(SEED);
    let mut g2 = make_glitch(12345);
    for frame in 0..150usize {
        let mut c1 = vec![off(); 16];
        let mut c2 = vec![off(); 16];
        g1.render_frame(&mut c1, frame);
        g2.render_frame(&mut c2, frame);
        if !(75..125).contains(&frame) {
            assert_eq!(c1, c2, "non-glitch frame {} differs", frame);
        } else {
            for i in (0..16).step_by(2) {
                assert_eq!(c1[i], c2[i], "solid pixel {} differs on frame {}", i, frame);
            }
        }
    }
}

#[test]
fn window_boundaries_are_exact() {
    let mut g = make_glitch(SEED);
    // an odd pixel (index 1) pins each window edge: solid inside a hold
    // window, off outside every window
    let solid = base_color(1);
    let expect_at = |g: &mut Glitch, frame: usize| -> Pixel {
        let mut canvas = vec![off(); 4];
        g.render_frame(&mut canvas, frame);
        canvas[1]
    };
    assert_eq!(expect_at(&mut g, 19), solid); // last frame of the opening hold
    assert_eq!(expect_at(&mut g, 20), off()); // first frame past it
    assert_eq!(expect_at(&mut g, 30), off()); // the second hold starts after 30
    assert_eq!(expect_at(&mut g, 31), solid);
    assert_eq!(expect_at(&mut g, 45), solid); // and includes 45
    assert_eq!(expect_at(&mut g, 46), off());
    assert_eq!(expect_at(&mut g, 125), off()); // the flicker window excludes 125
    assert_eq!(expect_at(&mut g, 149), off());
}

#[test]
fn clock_value_is_taken_modulo_the_cycle() {
    // frame 157 falls on phase 7, inside the opening hold window
    let mut g = make_glitch(SEED);
    let mut canvas = vec![off(); 10];
    g.render_frame(&mut canvas, 157);
    for i in 0..10 {
        assert_eq!(canvas[i], base_color(i));
    }
}
