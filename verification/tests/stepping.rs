use replicator::speed::Speed;
use replicator::stepping::{
    GapTuner, DEFAULT_GAP_1X_MS, GROW_MS, MAX_GAP_MS, MIN_GAP_MS, SHRINK_MS, ZEROS_BEFORE_GROWING,
};

#[test]
fn single_empty_pulses_do_not_move_the_gap() {
    // 实测空脉冲率约 42%，是正常现象。为此就加大间隔只会来回震荡，
    // 而且实测加大间隔对推进量毫无帮助 —— 纯粹增加跨帧风险。
    let mut t = GapTuner::new(16);
    for _ in 0..(ZEROS_BEFORE_GROWING - 1) {
        t.observe(0);
    }
    assert_eq!(t.gap_ms(), 16, "零星空脉冲不该改变间隔");
    // 中间夹一次成功就重新计数
    t.observe(1);
    for _ in 0..(ZEROS_BEFORE_GROWING - 1) {
        t.observe(0);
    }
    assert_eq!(t.gap_ms(), 16, "计数应当被成功推进重置");
}

#[test]
fn a_long_run_of_zeros_nudges_the_gap_up() {
    let mut t = GapTuner::new(16);
    for _ in 0..ZEROS_BEFORE_GROWING {
        t.observe(0);
    }
    assert_eq!(t.gap_ms(), 16 + GROW_MS, "连续空脉冲才小幅加大");
}

#[test]
fn overshoot_shrinks_immediately_and_more_than_it_grows() {
    let mut t = GapTuner::new(20);
    t.observe(2);
    assert_eq!(t.gap_ms(), 20 - SHRINK_MS, "跨帧必须立刻缩小");

    // 一次跨帧的缩小量，必须超过连续空脉冲攒出来的增长量 ——
    // 否则在"偶尔跨帧 + 大量空脉冲"的输入下会被慢慢推回危险区间。
    let mut grower = GapTuner::new(20);
    for _ in 0..ZEROS_BEFORE_GROWING {
        grower.observe(0);
    }
    let grew = grower.gap_ms() - 20;
    assert!(
        grew < SHRINK_MS,
        "一次跨帧的缩量({SHRINK_MS})必须盖过一轮增量({grew})"
    );
}

#[test]
fn respects_bounds() {
    let mut t = GapTuner::new(MAX_GAP_MS);
    for _ in 0..100 {
        t.observe(0);
    }
    assert_eq!(t.gap_ms(), MAX_GAP_MS, "不能超过上限");

    let mut t = GapTuner::new(MIN_GAP_MS);
    for _ in 0..20 {
        t.observe(5);
    }
    assert_eq!(t.gap_ms(), MIN_GAP_MS, "不能低于下限");
}

#[test]
fn initial_gap_is_clamped() {
    assert_eq!(GapTuner::new(1).gap_ms(), MIN_GAP_MS);
    assert_eq!(GapTuner::new(999).gap_ms(), MAX_GAP_MS);
}

#[test]
fn tracks_statistics() {
    let mut t = GapTuner::new(22);
    t.observe(0);
    t.observe(1);
    t.observe(1);
    t.observe(3);
    assert_eq!(t.pulses, 4);
    assert_eq!(t.zero_frame_pulses, 1);
    assert_eq!(t.overshoot_pulses, 1);
    assert!(t.had_overshoot());
    let zero_rate = f64::from(t.zero_frame_pulses) / f64::from(t.pulses);
    assert!((zero_rate - 0.25).abs() < 1e-9);
}

#[test]
fn negative_frame_delta_is_treated_as_no_progress() {
    let mut t = GapTuner::new(16);
    t.observe(-1);
    assert_eq!(t.zero_frame_pulses, 1);
    assert!(!t.had_overshoot(), "倒退不算跨帧");
}

#[test]
fn converges_away_from_overshoot() {
    // 模拟一个"20ms 及以上就会跨帧"的机器：整定器应当收敛到安全区间并稳住。
    let mut t = GapTuner::new(MAX_GAP_MS);
    for _ in 0..40 {
        let advanced = if t.gap_ms() >= 20 { 2 } else { 1 };
        t.observe(advanced);
    }
    assert!(
        t.gap_ms() < 20,
        "应当收敛到不跨帧的区间，实际 {}",
        t.gap_ms()
    );
    let before = t.overshoot_pulses;
    for _ in 0..20 {
        let advanced = if t.gap_ms() >= 20 { 2 } else { 1 };
        t.observe(advanced);
    }
    assert_eq!(t.overshoot_pulses, before, "收敛后不该再跨帧");
}

/// 用实测到的分布回放：42% 空脉冲、58% 推进一帧、零跨帧。
/// 整定器在这种输入下必须**稳住不动**，而不是被空脉冲带着往上爬。
#[test]
fn stays_put_under_the_measured_distribution() {
    let mut t = GapTuner::new(DEFAULT_GAP_1X_MS);
    // 交替出现，模拟"偶尔连续几次空脉冲"但不会长跑
    let pattern = [0, 1, 0, 1, 1, 0, 1, 0, 0, 1, 1, 0, 1, 1, 0, 1];
    for _ in 0..10 {
        for d in pattern {
            t.observe(d);
        }
    }
    assert_eq!(
        t.gap_ms(),
        DEFAULT_GAP_1X_MS,
        "实测分布下间隔不该漂移，实际 {}",
        t.gap_ms()
    );
    assert!(!t.had_overshoot());
}

#[test]
fn default_gap_is_safely_below_one_frame() {
    // One frame lasts 33.3 ms at 1x; the default gap must stay well below it to leave
    // room for jitter.
    let frame_ms = 1000.0 / f64::from(Speed::One.frames_per_second());
    assert!(f64::from(DEFAULT_GAP_1X_MS) < frame_ms * 0.75);
    assert!(f64::from(MAX_GAP_MS) < frame_ms * 0.8);
}
