use snowdrift::clock::{frame_delta, framerate, FrameRate};
use snowdrift::skier::{animation, SkiLoop, FRAMES, PERIOD};

fn run(state: &mut SkiLoop, steps: &[u64]) {
    for &d in steps {
        state.increment(d);
    }
}

#[test]
fn the_skier_starts_on_the_first_frame() {
    let s = SkiLoop::default();
    assert_eq!(s, SkiLoop { frame: 0, elapsed: 0, period: 100_000 });
    assert_eq!(PERIOD, 100_000);
    assert_eq!(FRAMES, 12);
    assert!(s.is_wf());
}

#[test]
fn a_skier_needs_a_period() {
    assert_eq!(SkiLoop::new(0), None);
    assert_eq!(SkiLoop::new(250), Some(SkiLoop { frame: 0, elapsed: 0, period: 250 }));
}

#[test]
fn is_wf_tells_a_frame_out_of_the_sheet() {
    assert!(!SkiLoop { frame: 12, elapsed: 0, period: 100 }.is_wf());
    assert!(!SkiLoop { frame: 0, elapsed: 100, period: 100 }.is_wf());
    assert!(!SkiLoop { frame: 0, elapsed: 0, period: 0 }.is_wf());
    assert!(SkiLoop { frame: 11, elapsed: 99, period: 100 }.is_wf());
}

#[test]
fn increment_gathers_time_below_a_period() {
    let mut s = SkiLoop::default();
    s.increment(60_000);
    assert_eq!(s, SkiLoop { frame: 0, elapsed: 60_000, period: 100_000 });
    s.increment(39_999);
    assert_eq!(s, SkiLoop { frame: 0, elapsed: 99_999, period: 100_000 });
}

#[test]
fn increment_moves_on_when_a_period_has_passed() {
    let mut s = SkiLoop::default();
    s.increment(100_000);
    assert_eq!(s, SkiLoop { frame: 1, elapsed: 0, period: 100_000 });
}

#[test]
fn increment_carries_what_went_beyond_the_period() {
    let mut s = SkiLoop::default();
    s.increment(60_000);
    s.increment(60_000);
    assert_eq!(s, SkiLoop { frame: 1, elapsed: 20_000, period: 100_000 });
    s.increment(80_000);
    assert_eq!(s, SkiLoop { frame: 2, elapsed: 0, period: 100_000 });
}

#[test]
fn increment_goes_from_the_last_frame_to_the_first() {
    let mut s = SkiLoop { frame: 11, elapsed: 90_000, period: 100_000 };
    s.increment(10_000);
    assert_eq!(s, SkiLoop { frame: 0, elapsed: 0, period: 100_000 });
}

#[test]
fn increment_moves_on_by_every_period_that_ended() {
    let mut s = SkiLoop::default();
    s.increment(300_000);
    assert_eq!(s, SkiLoop { frame: 3, elapsed: 0, period: 100_000 });
    let mut t = SkiLoop::default();
    t.increment(250_000);
    assert_eq!(t, SkiLoop { frame: 2, elapsed: 50_000, period: 100_000 });
    t.increment(50_000);
    assert_eq!(t, SkiLoop { frame: 3, elapsed: 0, period: 100_000 });
    let mut u = SkiLoop { frame: 10, elapsed: 99_999, period: 100_000 };
    u.increment(400_001);
    assert_eq!(u, SkiLoop { frame: 3, elapsed: 0, period: 100_000 });
}

#[test]
fn increment_by_a_whole_cycle_in_one_step() {
    let mut s = SkiLoop { frame: 5, elapsed: 42, period: 100_000 };
    s.increment(1_200_000);
    assert_eq!(s, SkiLoop { frame: 5, elapsed: 42, period: 100_000 });
}

#[test]
fn increment_by_the_longest_step_of_the_shortest_period() {
    let mut s = SkiLoop { frame: 0, elapsed: 0, period: 1 };
    s.increment(u64::MAX);
    // 2^64 - 1 = 12 * 1537228672809129301 + 3
    assert_eq!(s, SkiLoop { frame: 3, elapsed: 0, period: 1 });
}

#[test]
fn increment_takes_the_longest_step() {
    let mut s = SkiLoop { frame: 3, elapsed: u64::MAX - 1, period: u64::MAX };
    s.increment(u64::MAX);
    // (2^64 - 2) + (2^64 - 1) = (2^64 - 1) + (2^64 - 2)
    assert_eq!(s, SkiLoop { frame: 4, elapsed: u64::MAX - 1, period: u64::MAX });
}

#[test]
fn increment_by_no_time_changes_nothing() {
    let mut s = SkiLoop { frame: 5, elapsed: 42, period: 100_000 };
    s.increment(0);
    assert_eq!(s, SkiLoop { frame: 5, elapsed: 42, period: 100_000 });
}

#[test]
fn a_whole_cycle_in_periods() {
    let mut s = SkiLoop::default();
    for k in 1..=12u32 {
        s.increment(100_000);
        assert_eq!(s.frame, k % 12);
    }
    assert_eq!(s, SkiLoop::default());
}

#[test]
fn a_whole_cycle_however_it_is_split() {
    // 1200 ms each
    let splits: [Vec<u64>; 9] = [
        vec![50_000; 24],
        vec![75_000; 16],
        vec![16_000; 75],
        vec![1; 1_200_000],
        vec![100_000, 99_999, 1, 60_000, 60_000, 80_000, 33_333, 66_667, 100_000, 100_000,
            100_000, 100_000, 100_000, 100_000, 100_000],
        vec![150_000, 50_000, 199_999, 1, 150_000, 100_000, 100_000, 100_000, 100_000, 50_000,
            150_000, 50_000],
        vec![1_200_000],
        vec![0, 599_999, 0, 600_001, 0],
        vec![250_000, 50_000, 300_000, 199_999, 400_001],
    ];
    for steps in splits.iter() {
        assert_eq!(steps.iter().sum::<u64>(), 1_200_000);
        let mut s = SkiLoop::default();
        run(&mut s, steps);
        assert_eq!(s, SkiLoop::default());
    }
}

#[test]
fn two_cycles_with_a_long_first_step() {
    let mut steps = vec![1_300_000u64];
    steps.extend(vec![100_000u64; 11]);
    assert_eq!(steps.iter().sum::<u64>(), 2_400_000);
    let mut s = SkiLoop::default();
    run(&mut s, &steps);
    assert_eq!(s, SkiLoop::default());
}

#[test]
fn the_frame_depends_on_the_total_time_alone() {
    let splits: [Vec<u64>; 4] = [
        vec![750_000],
        vec![250_000; 3],
        vec![1, 749_999],
        vec![100_000, 0, 333_333, 316_667],
    ];
    for steps in splits.iter() {
        assert_eq!(steps.iter().sum::<u64>(), 750_000);
        let mut s = SkiLoop::default();
        run(&mut s, steps);
        assert_eq!(s, SkiLoop { frame: 7, elapsed: 50_000, period: 100_000 });
    }
}

#[test]
fn the_skier_keeps_time_with_the_clock() {
    let steps: [u64; 11] =
        [16_000, 17_000, 33_000, 100_000, 5, 99_995, 70_000, 70_000, 70_000, 2_345_678, 999_999];
    let mut s = SkiLoop { frame: 7, elapsed: 12_345, period: 100_000 };
    let mut clock: u64 = 12_345;
    for &d in steps.iter() {
        s.increment(d);
        clock += d;
        assert_eq!(s.frame as u64, (7 + clock / 100_000) % 12);
        assert_eq!(s.elapsed, clock % 100_000);
    }
}

#[test]
fn two_cycles_from_the_middle_of_a_frame() {
    let mut s = SkiLoop { frame: 9, elapsed: 250, period: 1_000 };
    run(&mut s, &vec![800; 30]);
    assert_eq!(s, SkiLoop { frame: 9, elapsed: 250, period: 1_000 });
}

#[test]
fn animation_gives_the_frame_on_show() {
    let mut s = SkiLoop::default();
    assert_eq!(animation(&mut s, 30_000), 0);
    assert_eq!(animation(&mut s, 70_000), 1);
    assert_eq!(s, SkiLoop { frame: 1, elapsed: 0, period: 100_000 });
    let mut last = SkiLoop { frame: 11, elapsed: 0, period: 100_000 };
    assert_eq!(animation(&mut last, 100_000), 0);
}

#[test]
fn frame_delta_passes_a_short_frame() {
    assert_eq!(frame_delta(0, 100_000), 0);
    assert_eq!(frame_delta(16_667, 100_000), 16_667);
    assert_eq!(frame_delta(100_000, 100_000), 100_000);
}

#[test]
fn frame_delta_cuts_a_stall() {
    assert_eq!(frame_delta(100_001, 100_000), 100_000);
    assert_eq!(frame_delta(u64::MAX, 100_000), 100_000);
    assert_eq!(frame_delta(5, 0), 0);
}

#[test]
fn frame_rate_needs_a_window() {
    assert!(FrameRate::new(0).is_none());
    let f = FrameRate::new(3).unwrap();
    assert_eq!(f.capacity, 3);
    assert!(f.samples.is_empty());
}

#[test]
fn frame_rate_of_an_empty_window() {
    let f = FrameRate::new(3).unwrap();
    assert_eq!(f.average(), None);
}

#[test]
fn frame_rate_while_no_time_has_passed() {
    let mut f = FrameRate::new(3).unwrap();
    f.record(0);
    f.record(0);
    assert_eq!(f.average(), None);
}

#[test]
fn frame_rate_is_frames_over_time() {
    let mut f = FrameRate::new(4).unwrap();
    f.record(20_000);
    assert_eq!(f.average(), Some(50));
    f.record(10_000);
    // 2 frames in 30 ms
    assert_eq!(f.average(), Some(66));
    f.record(16_667);
    f.record(16_667);
    // 4 frames in 63.334 ms
    assert_eq!(f.average(), Some(63));
}

#[test]
fn frame_rate_forgets_the_oldest_frame() {
    let mut f = FrameRate::new(2).unwrap();
    f.record(1_000_000);
    f.record(20_000);
    f.record(20_000);
    assert_eq!(f.samples, vec![20_000, 20_000]);
    assert_eq!(f.average(), Some(50));
    f.record(5_000);
    assert_eq!(f.samples, vec![20_000, 5_000]);
    assert_eq!(f.average(), Some(80));
}

#[test]
fn frame_rate_of_the_longest_frames() {
    let mut f = FrameRate::new(3).unwrap();
    f.record(u64::MAX);
    f.record(u64::MAX);
    f.record(u64::MAX);
    assert_eq!(f.average(), Some(0));
}

#[test]
fn framerate_records_and_reports() {
    let mut f = FrameRate::new(3).unwrap();
    assert_eq!(framerate(&mut f, 0), None);
    assert_eq!(framerate(&mut f, 10_000), Some(200));
    assert_eq!(framerate(&mut f, 10_000), Some(150));
    assert_eq!(framerate(&mut f, 10_000), Some(100));
}
