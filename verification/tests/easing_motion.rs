use inputsim::easing::{ease, Easing, EASE_ONE};
use inputsim::motion::{MoveAnimation, ScrollAnimation};

const ALL_EASINGS: [Easing; 10] = [
    Easing::Linear,
    Easing::InQuad,
    Easing::OutQuad,
    Easing::InOutQuad,
    Easing::InCubic,
    Easing::OutCubic,
    Easing::InOutCubic,
    Easing::InSine,
    Easing::OutSine,
    Easing::InOutSine,
];

#[test]
fn every_easing_is_exact_at_both_boundaries() {
    for &e in ALL_EASINGS.iter() {
        assert_eq!(ease(e, 0, 700, -35, 421), -35);
        assert_eq!(ease(e, 700, 700, -35, 421), 421);
        // any elapsed time past the duration also lands exactly on the target
        assert_eq!(ease(e, 701, 700, -35, 421), 421);
    }
}

#[test]
fn easing_midpoint_values_are_exact() {
    // halfway through a 100 ms run from 0 to 100
    let expected: [(Easing, i32); 10] = [
        (Easing::Linear, 50),
        (Easing::InQuad, 25),
        (Easing::OutQuad, 75),
        (Easing::InOutQuad, 50),
        (Easing::InCubic, 12),
        (Easing::OutCubic, 87),
        (Easing::InOutCubic, 50),
        (Easing::InSine, 30),
        (Easing::OutSine, 70),
        (Easing::InOutSine, 49),
    ];
    for &(e, v) in expected.iter() {
        assert_eq!(ease(e, 50, 100, 0, 100), v);
    }
}

#[test]
fn easing_stays_between_start_and_target() {
    for &e in ALL_EASINGS.iter() {
        for t in 0..=60u64 {
            let v = ease(e, t, 60, 20, -300);
            assert!((-300..=20).contains(&v));
        }
    }
}

#[test]
fn ease_one_is_the_full_fraction() {
    // the grid constant itself is fixed by the contract of frac_of
    assert_eq!(EASE_ONE, 1 << 20);
}

#[test]
fn move_animation_samples_and_corrects_exactly() {
    let anim = MoveAnimation::new(10, 20, 500, 900, 100, Easing::Linear);
    assert_eq!(anim.sample(0), Some((10, 20)));
    assert_eq!(anim.sample(50), Some((255, 460)));
    assert_eq!(anim.sample(100), None);
    assert_eq!(anim.sample(4000), None);
    assert_eq!(anim.finish(), (500, 900));
}

#[test]
fn scroll_animation_sums_exactly_to_target() {
    for &e in ALL_EASINGS.iter() {
        let mut anim = ScrollAnimation::new(37, -1000, 90, e);
        let mut total_x: i64 = 0;
        let mut total_y: i64 = 0;
        let mut t = 0u64;
        loop {
            match anim.step(t) {
                Some((dx, dy)) => {
                    total_x += dx as i64;
                    total_y += dy as i64;
                },
                None => break,
            }
            t += 7;
        }
        let (fx, fy) = anim.finish();
        total_x += fx as i64;
        total_y += fy as i64;
        assert_eq!(total_x, 37);
        assert_eq!(total_y, -1000);
    }
}

#[test]
fn scroll_animation_corrective_step_fires_even_without_samples() {
    let mut anim = ScrollAnimation::new(12, 0, 50, Easing::Linear);
    // the duration is already over at the first look
    assert_eq!(anim.step(50), None);
    assert_eq!(anim.finish(), (12, 0));
}

#[test]
fn scroll_animation_skips_zero_deltas() {
    let mut anim = ScrollAnimation::new(4, 0, 1000, Easing::Linear);
    // 4 units over 1000 ms: at 10 ms nothing whole has accumulated yet
    assert_eq!(anim.step(10), Some((0, 0)));
    assert_eq!(anim.step(500), Some((2, 0)));
    assert_eq!(anim.finish(), (2, 0));
}
