use marquee::animations::glitch::Glitch;
use marquee::driver::{Assignment, ConfigError, Effect, FrameDriver};
use marquee::effects::arrow::Arrow;
use marquee::effects::color_set::ColorSet;
use marquee::effects::running_lights::RunningLights;
use marquee::pixel::Pixel;

const RED: Pixel = Pixel { r: 253, g: 74, b: 65 };
const YELLOW: Pixel = Pixel { r: 255, g: 180, b: 47 };

fn off() -> Pixel {
    Pixel::new(0, 0, 0)
}

fn marquee_layout() -> Vec<Assignment> {
    vec![
        Assignment {
            effect: Effect::Glitch(Glitch::new(vec![RED, YELLOW], 150, 20, 30, 45, 75, 125, 7)),
            start: 0,
            end: 6,
        },
        Assignment {
            effect: Effect::Chase(RunningLights::new(&YELLOW, false, false, 3)),
            start: 6,
            end: 12,
        },
        Assignment {
            effect: Effect::Arrow(Arrow::new(&YELLOW, 2)),
            start: 13,
            end: 22,
        },
        Assignment {
            effect: Effect::Palette(ColorSet::new(vec![RED, YELLOW])),
            start: 22,
            end: 26,
        },
    ]
}

#[test]
fn driver_accepts_a_valid_layout() {
    let driver = FrameDriver::new(30, marquee_layout(), 50).expect("layout is valid");
    assert_eq!(driver.buffer().len(), 30);
    assert!(driver.buffer().iter().all(|p| *p == off()));
    assert_eq!(driver.clock(), 0);
    assert_eq!(driver.tick_len_ms(), 20);
}

#[test]
fn driver_renders_each_effect_on_its_own_slice() {
    let mut driver = FrameDriver::new(30, marquee_layout(), 50).expect("layout is valid");
    driver.render_tick();

    // the chase head appears at the start of its own slice
    assert_eq!(driver.buffer()[6], YELLOW);
    // the arrow heads converge from both ends of its slice
    assert_eq!(driver.buffer()[13], YELLOW);
    assert_eq!(driver.buffer()[21], YELLOW);
    // the palette cycler filled its slice
    assert_eq!(driver.buffer()[22], RED);
    // pixel 12 belongs to no generator and stays off; so do the spares
    assert_eq!(driver.buffer()[12], off());
    for x in 26..30 {
        assert_eq!(driver.buffer()[x], off());
    }
    // the clock advanced
    assert_eq!(driver.clock(), 1);
}

#[test]
fn driver_clock_wraps_after_its_period() {
    let mut driver = FrameDriver::new(10, Vec::new(), 4).expect("empty layout is valid");
    for _ in 0..3 {
        driver.render_tick();
    }
    assert_eq!(driver.clock(), 3);
    driver.render_tick();
    assert_eq!(driver.clock(), 0);
}

#[test]
fn driver_rejects_a_reversed_range() {
    let assignments = vec![Assignment {
        effect: Effect::Palette(ColorSet::new(vec![RED, YELLOW])),
        start: 5,
        end: 2,
    }];
    assert_eq!(
        FrameDriver::new(10, assignments, 50).err(),
        Some(ConfigError::RangeReversed)
    );
}

#[test]
fn driver_rejects_a_range_past_the_buffer() {
    let assignments = vec![Assignment {
        effect: Effect::Palette(ColorSet::new(vec![RED, YELLOW])),
        start: 5,
        end: 11,
    }];
    assert_eq!(
        FrameDriver::new(10, assignments, 50).err(),
        Some(ConfigError::RangeOutOfBounds)
    );
}

#[test]
fn driver_rejects_a_range_too_small_for_its_effect() {
    // a wrap-immediately chase needs strictly more room than its tail
    let assignments = vec![Assignment {
        effect: Effect::Chase(RunningLights::new(&YELLOW, false, false, 4)),
        start: 0,
        end: 4,
    }];
    assert_eq!(
        FrameDriver::new(10, assignments, 50).err(),
        Some(ConfigError::RangeTooSmall)
    );

    // an arrow needs at least four pixels
    let assignments = vec![Assignment {
        effect: Effect::Arrow(Arrow::new(&YELLOW, 2)),
        start: 0,
        end: 3,
    }];
    assert_eq!(
        FrameDriver::new(10, assignments, 50).err(),
        Some(ConfigError::RangeTooSmall)
    );
}

#[test]
fn driver_rejects_an_empty_range_for_a_chase() {
    let assignments = vec![Assignment {
        effect: Effect::Chase(RunningLights::new(&YELLOW, true, false, 2)),
        start: 3,
        end: 3,
    }];
    assert_eq!(
        FrameDriver::new(10, assignments, 50).err(),
        Some(ConfigError::RangeTooSmall)
    );
}

#[test]
fn driver_rejects_overlapping_ranges() {
    let assignments = vec![
        Assignment {
            effect: Effect::Palette(ColorSet::new(vec![RED, YELLOW])),
            start: 0,
            end: 5,
        },
        Assignment {
            effect: Effect::Chase(RunningLights::new(&YELLOW, true, false, 2)),
            start: 4,
            end: 9,
        },
    ];
    assert_eq!(
        FrameDriver::new(10, assignments, 50).err(),
        Some(ConfigError::OverlappingRanges)
    );
}

#[test]
fn driver_keeps_generators_in_step_across_ticks() {
    let assignments = vec![Assignment {
        effect: Effect::Chase(RunningLights::new(&YELLOW, true, false, 2)),
        start: 0,
        end: 5,
    }];
    let mut driver = FrameDriver::new(5, assignments, 50).expect("layout is valid");

    // drive a standalone chase with the same configuration in parallel
    let mut reference = RunningLights::new(&YELLOW, true, false, 2);
    for _ in 0..9 {
        driver.render_tick();
        let mut leds = vec![off(); 5];
        reference.mutate(&mut leds);
        assert_eq!(driver.buffer().as_slice(), leds.as_slice());
    }
}
