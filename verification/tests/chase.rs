use marquee::effects::running_lights::RunningLights;
use marquee::pixel::Pixel;

const YELLOW: Pixel = Pixel { r: 255, g: 180, b: 47 };

fn off() -> Pixel {
    Pixel::new(0, 0, 0)
}

fn count_lit(leds: &[Pixel]) -> usize {
    leds.iter().filter(|p| **p != off()).count()
}

fn find_head(leds: &[Pixel], color: Pixel) -> Option<usize> {
    let mut found = None;
    for (i, p) in leds.iter().enumerate() {
        if *p == color {
            assert!(found.is_none(), "more than one pixel at full brightness");
            found = Some(i);
        }
    }
    found
}

#[test]
fn dim_values_are_exact() {
    // tail brightness: each channel is divided by tail + 1 and scaled by
    // the remaining distance; the head stays at 100%
    let mut chase = RunningLights::new(&YELLOW, true, false, 2);
    let mut leds = vec![off(); 5];
    chase.mutate(&mut leds); // head at 0
    assert_eq!(leds, vec![YELLOW, off(), off(), off(), off()]);
    chase.mutate(&mut leds); // head at 1, one tail pixel behind
    assert_eq!(
        leds,
        vec![
            Pixel::new(170, 120, 30), // (255/3)*2, (180/3)*2, (47/3)*2
            YELLOW,
            off(),
            off(),
            off(),
        ]
    );
    chase.mutate(&mut leds); // head at 2, the full tail visible
    assert_eq!(
        leds,
        vec![
            Pixel::new(85, 60, 15), // (255/3)*1, (180/3)*1, (47/3)*1
            Pixel::new(170, 120, 30),
            YELLOW,
            off(),
            off(),
        ]
    );
}

#[test]
fn wrap_chase_head_visits_every_position_in_order() {
    // a 15-pixel buffer, tail length 7, wrap-immediately: after 15 calls
    // the head has visited positions 0 through 14 exactly once, in order
    let mut chase = RunningLights::new(&YELLOW, false, false, 7);
    let mut leds = vec![off(); 15];
    let mut visited = Vec::new();
    for _ in 0..15 {
        chase.mutate(&mut leds);
        let head = find_head(&leds, YELLOW).expect("exactly one pixel at full brightness");
        visited.push(head);
        // the wrapped tail keeps head + 7 tail pixels lit on every call
        assert_eq!(count_lit(&leds), 8);
    }
    let expected: Vec<usize> = (0..15).collect();
    assert_eq!(visited, expected);
}

#[test]
fn exit_chase_lit_count_grows_with_position() {
    // under must-exit-before-restart the tail never wraps, so each call
    // leaves exactly min(position, tail) + 1 pixels lit while the head is
    // on its way in
    let mut chase = RunningLights::new(&YELLOW, true, false, 7);
    let mut leds = vec![off(); 15];
    for call in 0..15usize {
        chase.mutate(&mut leds);
        assert_eq!(count_lit(&leds), call.min(7) + 1);
        assert_eq!(find_head(&leds, YELLOW), Some(call));
    }
}

#[test]
fn exit_chase_period_is_range_plus_tail() {
    // with range length 5 and tail length 2 the pattern repeats every 7
    // calls
    let mut chase = RunningLights::new(&YELLOW, true, false, 2);
    let mut frames = Vec::new();
    for _ in 0..14 {
        let mut leds = vec![off(); 5];
        chase.mutate(&mut leds);
        frames.push(leds);
    }
    for i in 0..7 {
        assert_eq!(frames[i], frames[i + 7]);
    }
}

#[test]
fn exit_chase_last_frame_nearly_dark() {
    // on the last call of a cycle the head and all but the tail's very
    // last pixel have left the range; the first-written slot still shows
    // the dimmest tail value for a bright color
    let mut chase = RunningLights::new(&YELLOW, true, false, 2);
    let mut leds = vec![off(); 5];
    for _ in 0..7 {
        chase.mutate(&mut leds);
    }
    // the 7th call rendered with the head at position 6 (= 5 + 2 - 1)
    assert_eq!(
        leds,
        vec![off(), off(), off(), off(), Pixel::new(85, 60, 15)]
    );
}

#[test]
fn exit_chase_last_frame_fully_dark_for_dim_color() {
    // when every channel is smaller than tail + 1 the whole tail is
    // invisible, so the cycle's last frame is entirely off
    let dim = Pixel::new(2, 1, 0);
    let mut chase = RunningLights::new(&dim, true, false, 2);
    let mut leds = vec![off(); 5];
    for _ in 0..7 {
        chase.mutate(&mut leds);
    }
    assert_eq!(leds, vec![off(); 5]);
}

#[test]
fn reverse_chase_mirrors_forward_chase() {
    let mut forward = RunningLights::new(&YELLOW, false, false, 3);
    let mut backward = RunningLights::new(&YELLOW, false, true, 3);
    for _ in 0..9 {
        let mut f = vec![off(); 7];
        let mut b = vec![off(); 7];
        forward.mutate(&mut f);
        backward.mutate(&mut b);
        let mirrored: Vec<Pixel> = f.iter().rev().copied().collect();
        assert_eq!(b, mirrored);
    }
}

#[test]
fn terminal_color_is_last_slot_before_reversal() {
    let mut chase = RunningLights::new(&YELLOW, true, false, 1);
    let mut leds = vec![off(); 3];
    chase.mutate(&mut leds); // head at 0
    assert_eq!(chase.color_at_terminus(), off());
    chase.mutate(&mut leds); // head at 1
    assert_eq!(chase.color_at_terminus(), off());
    chase.mutate(&mut leds); // head at 2, the last slot
    assert_eq!(chase.color_at_terminus(), YELLOW);
    chase.mutate(&mut leds); // head at 3 (virtual), tail on the last slot
    assert_eq!(chase.color_at_terminus(), Pixel::new(127, 90, 23));
}

#[test]
fn chase_render_is_idempotent_per_state() {
    // the frame depends only on the generator state and the range length,
    // never on what the buffer held before
    let mut a = RunningLights::new(&YELLOW, false, false, 4);
    let mut b = RunningLights::new(&YELLOW, false, false, 4);
    for step in 0..12u8 {
        let mut leds_a = vec![off(); 9];
        let mut leds_b = vec![Pixel::new(step, step, step); 9];
        a.mutate(&mut leds_a);
        b.mutate(&mut leds_b);
        assert_eq!(leds_a, leds_b);
    }
}
