use kibad::bandit::{
    Arm, KibaModel, StatUpdate, WidgetModel, BURN_IN_SAMPLES, CORRECTION_PENALTY_MS,
    HYSTERESIS_MARGIN, MIN_ARM_CONFIDENCE_SAMPLES, PRIOR_VARIANCE,
};
use kibad::scalar::Scalar;
use kibad::types::{Rect, WidgetKey};
use rand::{Rng, RngCore, SeedableRng};

fn key() -> WidgetKey {
    WidgetKey::new("org.kiba.testapp", "push button", "Save", "/0/2/1")
}

fn scalar(value: f64) -> Scalar {
    Scalar { bits: value.to_bits() }
}

fn number(value: Scalar) -> f64 {
    f64::from_bits(value.bits)
}

/// A draw from the standard normal distribution.
fn standard_normal(rng: &mut impl RngCore) -> f64 {
    let radius = (-2.0 * (1.0 - rng.gen::<f64>()).ln()).sqrt();
    radius * (std::f64::consts::TAU * rng.gen::<f64>()).cos()
}

fn thompson_draw(arm: &Arm, rng: &mut impl RngCore) -> f64 {
    let variance = match arm.variance_divisor() {
        None => PRIOR_VARIANCE as f64,
        Some(n) => number(arm.m2) / n as f64,
    };
    number(arm.mean_reward) + standard_normal(rng) * variance.sqrt().max(1.0)
}

/// One observation with real-valued statistics: a baseline that follows the
/// reaction times, a running mean and variance of the reward, and a round of
/// draws once the widget asks for it.
fn observe(w: &mut WidgetModel, rt_ms: f64, was_correction: bool, rng: &mut impl RngCore) {
    let effective = if was_correction { rt_ms + CORRECTION_PENALTY_MS as f64 } else { rt_ms };
    let baseline = match w.baseline_rt_ms {
        None => effective,
        Some(prev) => number(prev) * 0.9 + effective * 0.1,
    };
    let reward = -(effective - baseline);
    let arm = &w.arms[w.active_arm];
    let delta = reward - number(arm.mean_reward);
    let mean = number(arm.mean_reward) + delta / (arm.samples + 1) as f64;
    let m2 = number(arm.m2) + delta * (reward - mean);
    let update = StatUpdate {
        baseline_rt_ms: scalar(baseline),
        mean_reward: scalar(mean),
        m2: scalar(m2),
    };
    assert!(w.observe_in_range());
    if !w.observe(update) {
        return;
    }
    let mut draws = vec![scalar(0.0); w.arms.len()];
    for i in w.draw_order() {
        draws[i] = scalar(thompson_draw(&w.arms[i], rng));
    }
    let bar = scalar(number(w.arms[w.active_arm].mean_reward) + HYSTERESIS_MARGIN as f64);
    w.select_arm(&draws, bar);
}

#[test]
fn new_widget_starts_at_default_offset() {
    let mut model = KibaModel::new();
    let rect = Rect { x: 100, y: 100, w: 80, h: 24 };
    let w = model.widget_mut(&key(), rect);
    assert_eq!(w.current_rect().x, 100);
    assert_eq!(w.current_rect().y, 100);
}

#[test]
fn burn_in_never_relocates() {
    let mut model = KibaModel::new();
    let rect = Rect { x: 0, y: 0, w: 50, h: 20 };
    let mut rng = rand::rngs::StdRng::seed_from_u64(42);
    let w = model.widget_mut(&key(), rect);
    for _ in 0..(BURN_IN_SAMPLES - 1) {
        observe(w, 200.0, false, &mut rng);
        assert_eq!(w.active_arm, 0, "must not relocate during burn-in");
    }
}

#[test]
fn consistently_faster_arm_eventually_wins() {
    let mut model = KibaModel::new();
    let rect = Rect { x: 0, y: 0, w: 50, h: 20 };
    let mut rng = rand::rngs::StdRng::seed_from_u64(7);
    let w = model.widget_mut(&key(), rect);

    let mut times_active_was_arm1 = 0u32;
    let trials = 400;
    for i in 0..trials {
        let rt = if w.active_arm == 1 { 90.0 } else { 260.0 };
        observe(w, rt, false, &mut rng);
        if i > trials - 50 && w.active_arm == 1 {
            times_active_was_arm1 += 1;
        }
    }
    assert!(
        times_active_was_arm1 > 30,
        "expected arm 1 to dominate late selections, got {times_active_was_arm1}/50"
    );
}

#[test]
fn correction_click_is_penalized_harder_than_plain_slowness() {
    let mut model = KibaModel::new();
    let rect = Rect { x: 0, y: 0, w: 50, h: 20 };
    let mut rng = rand::rngs::StdRng::seed_from_u64(1);
    let w = model.widget_mut(&key(), rect);
    for _ in 0..BURN_IN_SAMPLES {
        observe(w, 150.0, false, &mut rng);
    }
    let arm_under_test = w.active_arm;
    let reward_before = number(w.arms[arm_under_test].mean_reward);
    observe(w, 150.0, true, &mut rng);
    let reward_after = number(w.arms[arm_under_test].mean_reward);
    assert!(reward_after < reward_before, "a correction click should drag mean reward down");
}

fn update(baseline: f64, mean: f64, m2: f64) -> StatUpdate {
    StatUpdate { baseline_rt_ms: scalar(baseline), mean_reward: scalar(mean), m2: scalar(m2) }
}

#[test]
fn candidate_offsets_are_the_default_and_four_nudges() {
    let w = WidgetModel::new(Rect { x: 1, y: 2, w: 3, h: 4 });
    let offsets: Vec<(i32, i32)> = w.arms.iter().map(|a| a.offset).collect();
    assert_eq!(offsets, vec![(0, 0), (-40, 0), (40, 0), (0, -40), (0, 40)]);
    assert!(w.arms.iter().all(|a| a.samples == 0 && a.mean_reward == scalar(0.0)));
    assert_eq!(w.total_samples, 0);
    assert_eq!(w.baseline_rt_ms, None);
}

#[test]
fn observation_is_counted_on_the_active_arm_only() {
    let mut w = WidgetModel::new(Rect { x: 0, y: 0, w: 10, h: 10 });
    w.active_arm = 3;
    assert!(!w.observe(update(200.0, -5.0, 7.0)));
    assert_eq!(w.total_samples, 1);
    assert_eq!(w.baseline_rt_ms, Some(scalar(200.0)));
    let samples: Vec<u32> = w.arms.iter().map(|a| a.samples).collect();
    assert_eq!(samples, vec![0, 0, 0, 1, 0]);
    assert_eq!(w.arms[3].mean_reward, scalar(-5.0));
    assert_eq!(w.arms[3].m2, scalar(7.0));
    assert_eq!(w.arms[3].offset, (0, -40));
    assert_eq!(w.active_arm, 3);
}

#[test]
fn selection_is_asked_for_once_burn_in_is_over() {
    let mut w = WidgetModel::new(Rect { x: 0, y: 0, w: 10, h: 10 });
    for n in 1..=BURN_IN_SAMPLES {
        assert_eq!(w.observe(update(1.0, 0.0, 0.0)), n >= BURN_IN_SAMPLES);
    }
    assert_eq!(w.arms.iter().map(|a| a.samples).sum::<u32>(), w.total_samples);
}

fn settled(active: usize, samples: [u32; 5]) -> WidgetModel {
    let mut w = WidgetModel::new(Rect { x: 0, y: 0, w: 10, h: 10 });
    w.total_samples = BURN_IN_SAMPLES;
    w.active_arm = active;
    for (arm, n) in w.arms.iter_mut().zip(samples) {
        arm.samples = n;
    }
    w
}

fn select(w: &mut WidgetModel, draws: [f64; 5], bar: f64) -> usize {
    let draws: Vec<Scalar> = draws.iter().map(|d| scalar(*d)).collect();
    w.select_arm(&draws, scalar(bar));
    w.active_arm
}

#[test]
fn highest_draw_wins_and_ties_go_to_the_first() {
    let mut w = settled(0, [0; 5]);
    assert_eq!(select(&mut w, [0.0, 1.0, 3.0, 3.0, 2.0], 100.0), 2);
    let mut w = settled(2, [0; 5]);
    assert_eq!(select(&mut w, [1.0, 1.0, 1.0, 1.0, 1.0], 100.0), 2);
    let mut w = settled(4, [0; 5]);
    assert_eq!(select(&mut w, [-1.0, -0.5, -3.0, -4.0, -2.0], 100.0), 1);
}

#[test]
fn confident_incumbent_is_protected_by_the_margin() {
    let n = MIN_ARM_CONFIDENCE_SAMPLES;
    let mut w = settled(0, [n, n, 0, 0, 0]);
    assert_eq!(select(&mut w, [0.0, 15.0, -1.0, -1.0, -1.0], 15.0), 0);
    let mut w = settled(0, [n, n, 0, 0, 0]);
    assert_eq!(select(&mut w, [0.0, 15.5, -1.0, -1.0, -1.0], 15.0), 1);
    // A fresh challenger is held to the margin too.
    let mut w = settled(0, [n, 0, 0, 0, 0]);
    assert_eq!(select(&mut w, [0.5, 5.0, 5.0, 5.0, 5.0], 15.0), 0);
    let mut w = settled(0, [n, n, 0, 0, 0]);
    assert_eq!(select(&mut w, [0.0, 14.0, 16.0, -1.0, -1.0], 15.0), 2);
    // Nobody is while the incumbent itself is fresh.
    let mut w = settled(0, [n - 1, n, 0, 0, 0]);
    assert_eq!(select(&mut w, [0.0, 1.0, -1.0, -1.0, -1.0], 15.0), 1);
}

#[test]
fn undefined_draws_never_win() {
    let nan = f64::NAN;
    let mut w = settled(1, [0; 5]);
    assert_eq!(select(&mut w, [nan, 0.0, nan, -1.0, nan], 15.0), 1);
    let mut w = settled(1, [0; 5]);
    assert_eq!(select(&mut w, [5.0, nan, 6.0, 7.0, 8.0], 15.0), 1);
}

#[test]
fn draws_are_taken_from_the_active_arm_first() {
    assert_eq!(settled(2, [0; 5]).draw_order(), vec![2, 0, 1, 3, 4]);
    assert_eq!(settled(0, [0; 5]).draw_order(), vec![0, 1, 2, 3, 4]);
    assert_eq!(settled(4, [0; 5]).draw_order(), vec![4, 0, 1, 2, 3]);
}

#[test]
fn variance_needs_two_samples() {
    let mut arm = Arm::new((0, 0));
    assert_eq!(arm.variance_divisor(), None);
    arm.observe(update(0.0, 1.0, 0.0));
    assert_eq!(arm.variance_divisor(), None);
    arm.observe(update(0.0, 1.0, 2.0));
    assert_eq!(arm.variance_divisor(), Some(1));
}

#[test]
fn model_is_shared_by_equal_keys_and_remembers_the_first() {
    let mut model = KibaModel::new();
    assert!(model.get(&key()).is_none());
    model.widget_mut(&key(), Rect { x: 5, y: 6, w: 7, h: 8 }).total_samples = 9;
    let again = model.widget_mut(&key(), Rect { x: 50, y: 60, w: 70, h: 80 });
    assert_eq!(again.default_rect, Rect { x: 5, y: 6, w: 7, h: 8 });
    assert_eq!(model.get(&key()).unwrap().total_samples, 9);
    assert_eq!(model.widgets.len(), 1);
    assert!(model.key_lookup[&key().fingerprint()] == key());
}

#[test]
fn ranges_are_checked_before_use() {
    let mut w = WidgetModel::new(Rect { x: i32::MIN, y: 0, w: 1, h: 1 });
    assert!(w.render_in_range());
    w.active_arm = 1;
    assert!(!w.render_in_range());
    w.active_arm = 2;
    assert!(w.render_in_range());
    assert_eq!(w.current_rect(), Rect { x: i32::MIN + 40, y: 0, w: 1, h: 1 });
    w.active_arm = 5;
    assert!(!w.render_in_range());
    assert!(!w.observe_in_range());
    w.active_arm = 0;
    w.total_samples = u32::MAX;
    assert!(!w.observe_in_range());
}

#[test]
fn models_copy_and_start_empty() {
    let mut model = WidgetModel::new(Rect { x: 1, y: 2, w: 3, h: 4 });
    model.observe(update(5.0, 6.0, 7.0));
    model.active_arm = 3;
    let copy = model.clone();
    assert_eq!(copy.default_rect, model.default_rect);
    assert_eq!(copy.baseline_rt_ms, Some(scalar(5.0)));
    assert_eq!((copy.total_samples, copy.active_arm), (1, 3));
    assert_eq!(copy.arms, model.arms);
    let empty = KibaModel::default();
    assert!(empty.widgets.is_empty() && empty.key_lookup.is_empty());
    assert!(empty.get(&key()).is_none());
}
