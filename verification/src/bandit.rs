//! The learning core.
//!
//! Each widget's candidate positions are the arms of a small multi-armed
//! bandit, explored by Gaussian Thompson sampling on a continuous reward: a
//! click faster than the widget's baseline rewards the position that produced
//! it, a slower one counts against it, and a corrected one counts as slower than
//! it was.
//!
//! The statistics themselves are real numbers and are computed by the caller;
//! they pass through here as [`Scalar`]s. What the library decides is which arm
//! an observation belongs to, when a widget may start to move at all, and which
//! arm a round of draws selects.
use vstd::prelude::*;

use std::collections::HashMap;

use crate::scalar::Scalar;
use crate::types::{in_i32, Rect, WidgetKey};
#[allow(unused_imports)]
use crate::types::{fingerprint_of, WidgetIdentity};

verus! {

/// Observations that a widget needs before it may be relocated.
pub const BURN_IN_SAMPLES: u32 = 12;

/// Milliseconds added to the reaction time of a click that had to be corrected.
pub const CORRECTION_PENALTY_MS: u32 = 400;

/// Samples that an arm needs before it counts as confident, and as an incumbent
/// is not unseated by noise.
pub const MIN_ARM_CONFIDENCE_SAMPLES: u32 = 5;

/// By how much a challenger's draw must beat the mean reward of a confident
/// incumbent, in reward units.
pub const HYSTERESIS_MARGIN: u32 = 15;

/// Variance assumed of an arm with fewer than two samples.
pub const PRIOR_VARIANCE: u32 = 100;

/// Reaction time assumed when neither a measurement nor a baseline exists.
pub const DEFAULT_REACTION_MS: u32 = 200;

/// Running statistics of one candidate position of one widget.
#[derive(Debug, PartialEq, Eq)]
pub struct Arm {
    /// Offset from the widget's default position.
    pub offset: (i32, i32),
    pub samples: u32,
    pub mean_reward: Scalar,
    /// Sum of squared deviations from the running mean.
    pub m2: Scalar,
}

/// New running statistics, as one observation leaves them.
#[derive(Debug, Clone, Copy, PartialEq, Eq, Structural)]
pub struct StatUpdate {
    /// The widget's baseline reaction time.
    pub baseline_rt_ms: Scalar,
    /// The active arm's mean reward.
    pub mean_reward: Scalar,
    /// The active arm's sum of squared deviations.
    pub m2: Scalar,
}

impl Arm {
    /// An arm at `offset` that nothing has been observed of.
    pub open spec fn fresh(offset: (i32, i32)) -> Arm {
        Arm { offset, samples: 0, mean_reward: Scalar { bits: 0 }, m2: Scalar { bits: 0 } }
    }

    /// The arm with one more sample and the given statistics.
    pub open spec fn sampled(self, update: StatUpdate) -> Arm {
        Arm {
            offset: self.offset,
            samples: (self.samples + 1) as u32,
            mean_reward: update.mean_reward,
            m2: update.m2,
        }
    }

    pub open spec fn confident(self) -> bool {
        self.samples >= MIN_ARM_CONFIDENCE_SAMPLES
    }

    pub fn new(offset: (i32, i32)) -> (arm: Arm)
        ensures
            arm == Arm::fresh(offset),
    {
        Arm { offset, samples: 0, mean_reward: Scalar { bits: 0 }, m2: Scalar { bits: 0 } }
    }

    /// Counts one sample and stores the statistics that it led to.
    pub fn observe(&mut self, update: StatUpdate)
        requires
            old(self).samples < u32::MAX,
        ensures
            *final(self) == old(self).sampled(update),
    {
        self.samples = self.samples + 1;
        self.mean_reward = update.mean_reward;
        self.m2 = update.m2;
    }

    /// The divisor of the sample variance, or `None` while the arm has too few
    /// samples and the prior variance stands in.
    pub fn variance_divisor(&self) -> (divisor: Option<u32>)
        ensures
            divisor == (if self.samples < 2 {
                None::<u32>
            } else {
                Some((self.samples - 1) as u32)
            }),
    {
        if self.samples < 2 {
            None
        } else {
            Some(self.samples - 1)
        }
    }
}

impl Clone for Arm {
    fn clone(&self) -> (arm: Arm)
        ensures
            arm == *self,
    {
        Arm {
            offset: self.offset,
            samples: self.samples,
            mean_reward: self.mean_reward,
            m2: self.m2,
        }
    }
}

/// What a [`WidgetModel`] holds.
#[verifier::ext_equal]
pub struct ModelState {
    pub default_rect: Rect,
    pub baseline_rt_ms: Option<Scalar>,
    pub total_samples: u32,
    pub arms: Seq<Arm>,
    pub active_arm: int,
}

impl ModelState {
    /// A widget at `rect` that has not been observed: five candidate positions,
    /// of which the default one is active.
    pub open spec fn fresh(rect: Rect) -> ModelState {
        ModelState {
            default_rect: rect,
            baseline_rt_ms: None,
            total_samples: 0,
            arms: seq![
                Arm::fresh((0, 0)),
                Arm::fresh((-40 as i32, 0)),
                Arm::fresh((40, 0)),
                Arm::fresh((0, -40 as i32)),
                Arm::fresh((0, 40)),
            ],
            active_arm: 0,
        }
    }

    /// The active arm exists.
    pub open spec fn wf(self) -> bool {
        0 <= self.active_arm < self.arms.len()
    }

    pub open spec fn active(self) -> Arm {
        self.arms[self.active_arm]
    }

    /// The counters can take one more observation.
    pub open spec fn can_observe(self) -> bool {
        &&& self.wf()
        &&& self.total_samples < u32::MAX
        &&& self.active().samples < u32::MAX
    }

    /// The state after one observation has been counted: the widget's counter
    /// and baseline move, the active arm takes the sample, and nothing else
    /// changes.
    pub open spec fn observed(self, update: StatUpdate) -> ModelState {
        ModelState {
            default_rect: self.default_rect,
            baseline_rt_ms: Some(update.baseline_rt_ms),
            total_samples: (self.total_samples + 1) as u32,
            arms: self.arms.update(self.active_arm, self.active().sampled(update)),
            active_arm: self.active_arm,
        }
    }

    /// The widget may be relocated.
    pub open spec fn past_burn_in(self) -> bool {
        self.total_samples >= BURN_IN_SAMPLES
    }

    /// Whether arm `i` may unseat the active arm with its draw. It has to draw
    /// more than the incumbent, and against a confident incumbent it must also
    /// clear `bar`, however many samples it has itself.
    pub open spec fn challenges(self, draws: Seq<Scalar>, bar: Scalar, i: int) -> bool {
        &&& 0 <= i < self.arms.len()
        &&& i != self.active_arm
        &&& self.active().confident() ==> draws[i].above(bar)
        &&& draws[i].above(draws[self.active_arm])
    }

    /// Arm `winner` is the outcome of a round of draws: the active arm if
    /// nothing challenges it, else the first of the challengers with the
    /// highest draw.
    pub open spec fn selects(self, draws: Seq<Scalar>, bar: Scalar, winner: int) -> bool {
        if winner == self.active_arm {
            forall|i: int| !#[trigger] self.challenges(draws, bar, i)
        } else {
            &&& self.challenges(draws, bar, winner)
            &&& forall|i: int|
                #[trigger] self.challenges(draws, bar, i) ==> !draws[i].above(draws[winner])
            &&& forall|i: int|
                i < winner && #[trigger] self.challenges(draws, bar, i) ==> draws[winner].above(
                    draws[i],
                )
        }
    }

    pub open spec fn with_active(self, arm: int) -> ModelState {
        ModelState { active_arm: arm, ..self }
    }

    /// Where the widget is rendered: its default rectangle moved by the active
    /// arm's offset.
    pub open spec fn shifted(self) -> (int, int) {
        (self.default_rect.x + self.active().offset.0, self.default_rect.y + self.active().offset.1)
    }

    /// The rendered position is a pair of `i32` coordinates.
    pub open spec fn can_render(self) -> bool {
        self.wf() && in_i32(self.shifted().0) && in_i32(self.shifted().1)
    }

    /// The rectangle at which the widget is rendered.
    pub open spec fn current(self) -> Rect {
        Rect {
            x: self.shifted().0 as i32,
            y: self.shifted().1 as i32,
            w: self.default_rect.w,
            h: self.default_rect.h,
        }
    }

    /// The widget is rendered away from its default position.
    pub open spec fn relocated(self) -> bool {
        self.current().x != self.default_rect.x || self.current().y != self.default_rect.y
    }

    /// The order in which a round takes its draws: the active arm first, then
    /// the others by index.
    pub open spec fn draw_sequence(self) -> Seq<int> {
        seq![self.active_arm] + Seq::new(self.arms.len(), |i: int| i).remove(self.active_arm)
    }
}

/// Adaptive state of one widget.
#[derive(Debug)]
pub struct WidgetModel {
    /// Where the application draws the widget.
    pub default_rect: Rect,
    pub baseline_rt_ms: Option<Scalar>,
    pub total_samples: u32,
    pub arms: Vec<Arm>,
    /// Index into `arms` of the position being rendered.
    pub active_arm: usize,
}

impl View for WidgetModel {
    type V = ModelState;

    open spec fn view(&self) -> ModelState {
        ModelState {
            default_rect: self.default_rect,
            baseline_rt_ms: self.baseline_rt_ms,
            total_samples: self.total_samples,
            arms: self.arms@,
            active_arm: self.active_arm as int,
        }
    }
}

impl Clone for WidgetModel {
    fn clone(&self) -> (model: WidgetModel)
        ensures
            model@ == self@,
    {
        let model = WidgetModel {
            default_rect: self.default_rect,
            baseline_rt_ms: self.baseline_rt_ms,
            total_samples: self.total_samples,
            arms: self.arms.clone(),
            active_arm: self.active_arm,
        };
        assert(model.arms@ =~= self.arms@);
        model
    }
}

impl WidgetModel {
    pub fn new(default_rect: Rect) -> (model: WidgetModel)
        ensures
            model@ == ModelState::fresh(default_rect),
    {
        let mut arms: Vec<Arm> = Vec::new();
        arms.push(Arm::new((0, 0)));
        arms.push(Arm::new((-40, 0)));
        arms.push(Arm::new((40, 0)));
        arms.push(Arm::new((0, -40)));
        arms.push(Arm::new((0, 40)));
        WidgetModel { default_rect, baseline_rt_ms: None, total_samples: 0, arms, active_arm: 0 }
    }

    /// The rectangle at which the widget is to be rendered.
    pub fn current_rect(&self) -> (rect: Rect)
        requires
            self@.can_render(),
        ensures
            rect == self@.current(),
    {
        let (dx, dy): (i32, i32) = self.arms[self.active_arm].offset;
        Rect {
            x: self.default_rect.x + dx,
            y: self.default_rect.y + dy,
            w: self.default_rect.w,
            h: self.default_rect.h,
        }
    }

    /// Whether [`WidgetModel::current_rect`] may be called.
    pub fn render_in_range(&self) -> (ok: bool)
        ensures
            ok == self@.can_render(),
    {
        if self.active_arm >= self.arms.len() {
            return false;
        }
        let (dx, dy): (i32, i32) = self.arms[self.active_arm].offset;
        let x: i64 = self.default_rect.x as i64 + dx as i64;
        let y: i64 = self.default_rect.y as i64 + dy as i64;
        i32::MIN as i64 <= x && x <= i32::MAX as i64 && i32::MIN as i64 <= y && y
            <= i32::MAX as i64
    }

    /// Whether [`WidgetModel::observe`] may be called.
    pub fn observe_in_range(&self) -> (ok: bool)
        ensures
            ok == self@.can_observe(),
    {
        self.active_arm < self.arms.len() && self.total_samples < u32::MAX
            && self.arms[self.active_arm].samples < u32::MAX
    }

    /// Counts one click: the widget's counter and baseline, and the active
    /// arm's sample. Returns whether the widget is past its burn-in, in which
    /// case a round of draws follows (see [`WidgetModel::select_arm`]).
    pub fn observe(&mut self, update: StatUpdate) -> (select: bool)
        requires
            old(self)@.can_observe(),
        ensures
            final(self)@ == old(self)@.observed(update),
            select == final(self)@.past_burn_in(),
            final(self).baseline_rt_ms == Some(update.baseline_rt_ms),
            final(self).total_samples == old(self).total_samples + 1,
            final(self).active_arm == old(self).active_arm,
    {
        self.total_samples = self.total_samples + 1;
        self.baseline_rt_ms = Some(update.baseline_rt_ms);
        let arm: usize = self.active_arm;
        self.arms[arm].observe(update);
        self.total_samples >= BURN_IN_SAMPLES
    }

    /// Makes the arm that a round of draws selects the active one. `draws[i]`
    /// is arm `i`'s draw, and `bar` is the active arm's mean reward plus the
    /// hysteresis margin.
    pub fn select_arm(&mut self, draws: &Vec<Scalar>, bar: Scalar)
        requires
            old(self)@.wf(),
            draws.len() == old(self).arms.len(),
        ensures
            final(self)@ == old(self)@.with_active(final(self)@.active_arm),
            final(self)@.wf(),
            old(self)@.selects(draws@, bar, final(self)@.active_arm),
            final(self).active_arm != old(self).active_arm ==> draws@[final(self).active_arm as int].above(
                draws@[old(self).active_arm as int],
            ),
    {
        let ghost state = self@;
        let active: usize = self.active_arm;
        let active_confident: bool = self.arms[active].samples >= MIN_ARM_CONFIDENCE_SAMPLES;
        let mut best: usize = active;
        let mut i: usize = 0;
        while i < self.arms.len()
            invariant
                self@ == state,
                state == old(self)@,
                state.wf(),
                active == state.active_arm,
                active_confident == state.active().confident(),
                draws.len() == self.arms.len(),
                i <= self.arms.len(),
                best < self.arms.len(),
                best == active ==> forall|k: int|
                    k < i ==> !#[trigger] state.challenges(draws@, bar, k),
                best != active ==> {
                    &&& best < i
                    &&& state.challenges(draws@, bar, best as int)
                    &&& forall|k: int|
                        k < i && #[trigger] state.challenges(draws@, bar, k) ==> !draws@[k].above(
                            draws@[best as int],
                        )
                    &&& forall|k: int|
                        k < best && #[trigger] state.challenges(draws@, bar, k)
                            ==> draws@[best as int].above(draws@[k])
                },
            decreases self.arms.len() - i,
        {
            if i != active {
                let clears: bool = !active_confident || draws[i].exceeds(bar);
                if clears && draws[i].exceeds(draws[best]) {
                    best = i;
                }
            }
            i = i + 1;
        }
        self.active_arm = best;
    }

    /// The order in which the arms take their draws.
    pub fn draw_order(&self) -> (order: Vec<usize>)
        requires
            self@.wf(),
        ensures
            order@.map_values(|i: usize| i as int) == self@.draw_sequence(),
    {
        let mut order: Vec<usize> = Vec::new();
        order.push(self.active_arm);
        let mut i: usize = 0;
        while i < self.arms.len()
            invariant
                self@.wf(),
                i <= self.arms.len(),
                order.len() == (if i <= self.active_arm {
                    i + 1
                } else {
                    i as int
                }),
                order@[0] == self.active_arm,
                forall|k: int|
                    1 <= k < order.len() ==> #[trigger] order@[k] == (if k <= self.active_arm {
                        k - 1
                    } else {
                        k
                    }),
            decreases self.arms.len() - i,
        {
            if i != self.active_arm {
                order.push(i);
            }
            i = i + 1;
        }
        proof {
            let seen = order@.map_values(|i: usize| i as int);
            let all = Seq::new(self@.arms.len(), |i: int| i);
            let expected = self@.draw_sequence();
            assert(all.remove(self@.active_arm).len() == all.len() - 1);
            assert forall|k: int| 0 <= k < seen.len() implies seen[k] == expected[k] by {
                if k >= 1 {
                    assert(expected[k] == all.remove(self@.active_arm)[k - 1]);
                }
            }
            assert(seen =~= expected);
        }
        order
    }
}

/// One whole observation: it is counted, and once the widget is past its
/// burn-in a round of draws picks the active arm.
pub open spec fn observation_step(
    before: ModelState,
    update: StatUpdate,
    draws: Seq<Scalar>,
    bar: Scalar,
    after: ModelState,
) -> bool {
    let counted = before.observed(update);
    &&& before.can_observe()
    &&& if counted.past_burn_in() {
        &&& draws.len() == counted.arms.len()
        &&& after == counted.with_active(after.active_arm)
        &&& counted.selects(draws, bar, after.active_arm)
    } else {
        after == counted
    }
}

/// `after` follows `before` by some observation.
pub open spec fn observation_leads(before: ModelState, after: ModelState) -> bool {
    exists|update: StatUpdate, draws: Seq<Scalar>, bar: Scalar|
        observation_step(before, update, draws, bar, after)
}

/// The states that a new widget at `rect` goes through, one observation at a
/// time.
pub open spec fn is_history(rect: Rect, history: Seq<ModelState>) -> bool {
    &&& history.len() > 0
    &&& history[0] == ModelState::fresh(rect)
    &&& forall|i: int|
        0 < i < history.len() ==> observation_leads(history[i - 1], #[trigger] history[i])
}

/// How many samples the arms hold together.
pub open spec fn sample_sum(arms: Seq<Arm>) -> int
    decreases arms.len(),
{
    if arms.len() == 0 {
        0
    } else {
        sample_sum(arms.drop_last()) + arms.last().samples
    }
}

/// A new widget starts where its application draws it.
pub proof fn law_new_widget_starts_at_default(rect: Rect)
    ensures
        ModelState::fresh(rect).can_render(),
        ModelState::fresh(rect).current() == rect,
        !ModelState::fresh(rect).relocated(),
{
}

/// A round of draws has one outcome only.
pub proof fn law_selection_is_unique(
    state: ModelState,
    draws: Seq<Scalar>,
    bar: Scalar,
    a: int,
    b: int,
)
    requires
        state.selects(draws, bar, a),
        state.selects(draws, bar, b),
    ensures
        a == b,
{
    if a != state.active_arm {
        assert(state.challenges(draws, bar, a));
    }
    if b != state.active_arm {
        assert(state.challenges(draws, bar, b));
    }
}

/// Every arm stays eligible, however few samples it has: a challenger that draws
/// more than every other arm is selected, if it clears the margin where the
/// incumbent is confident.
pub proof fn law_fresh_arm_can_win(state: ModelState, draws: Seq<Scalar>, bar: Scalar, arm: int)
    requires
        state.wf(),
        0 <= arm < state.arms.len(),
        arm != state.active_arm,
        state.active().confident() ==> draws[arm].above(bar),
        forall|i: int| 0 <= i < state.arms.len() && i != arm ==> draws[arm].above(#[trigger] draws[i]),
    ensures
        state.selects(draws, bar, arm),
{
    assert(draws[arm].above(draws[state.active_arm]));
    assert(state.challenges(draws, bar, arm));
}

/// The margin protects a confident incumbent: a challenger whose draw does not
/// clear it never unseats one, however many samples the challenger has.
pub proof fn law_margin_protects_incumbent(
    state: ModelState,
    draws: Seq<Scalar>,
    bar: Scalar,
    winner: int,
)
    requires
        state.selects(draws, bar, winner),
        state.active().confident(),
        !draws[winner].above(bar),
    ensures
        winner == state.active_arm,
{
}

/// A widget keeps the same rectangle, the same candidate offsets and a valid
/// active arm through any observation.
pub proof fn law_observation_keeps_layout(before: ModelState, after: ModelState)
    requires
        observation_leads(before, after),
    ensures
        after.wf(),
        after.default_rect == before.default_rect,
        after.arms.len() == before.arms.len(),
        forall|i: int|
            0 <= i < after.arms.len() ==> (#[trigger] after.arms[i]).offset
                == before.arms[i].offset,
        after.total_samples == before.total_samples + 1,
{
    let (update, draws, bar) = choose|update: StatUpdate, draws: Seq<Scalar>, bar: Scalar|
        observation_step(before, update, draws, bar, after);
    let counted = before.observed(update);
    if counted.past_burn_in() && after.active_arm != counted.active_arm {
        assert(counted.challenges(draws, bar, after.active_arm));
    }
}

/// A widget is never relocated during its burn-in: as long as it has been
/// observed fewer than [`BURN_IN_SAMPLES`] times it stays on its first arm.
pub proof fn law_burn_in_never_relocates(rect: Rect, history: Seq<ModelState>, i: int)
    requires
        is_history(rect, history),
        0 <= i < history.len(),
        i < BURN_IN_SAMPLES,
    ensures
        history[i].total_samples == i,
        history[i].active_arm == 0,
    decreases i,
{
    if i > 0 {
        law_burn_in_never_relocates(rect, history, i - 1);
        let before = history[i - 1];
        let after = history[i];
        assert(observation_leads(before, after));
        let (update, draws, bar) = choose|update: StatUpdate, draws: Seq<Scalar>, bar: Scalar|
            observation_step(before, update, draws, bar, after);
        assert(!before.observed(update).past_burn_in());
    }
}

proof fn lemma_sample_sum_update(arms: Seq<Arm>, i: int, arm: Arm)
    requires
        0 <= i < arms.len(),
    ensures
        sample_sum(arms.update(i, arm)) == sample_sum(arms) - arms[i].samples + arm.samples,
    decreases arms.len(),
{
    let updated = arms.update(i, arm);
    if i == arms.len() - 1 {
        assert(updated.drop_last() =~= arms.drop_last());
    } else {
        lemma_sample_sum_update(arms.drop_last(), i, arm);
        assert(updated.drop_last() =~= arms.drop_last().update(i, arm));
    }
}

proof fn lemma_sample_sum_bounds(arms: Seq<Arm>, i: int)
    requires
        0 <= i < arms.len(),
    ensures
        0 <= arms[i].samples <= sample_sum(arms),
        sample_sum(arms.drop_last()) >= 0,
    decreases arms.len(),
{
    if arms.len() > 1 {
        let k = if i < arms.len() - 1 { i } else { 0 };
        lemma_sample_sum_bounds(arms.drop_last(), k);
        assert(arms.drop_last()[k] == arms[k]);
    } else {
        assert(sample_sum(arms.drop_last()) == 0);
    }
}

/// No observation is lost or counted twice: in every state that a widget goes
/// through, the samples of its arms add up to the widget's own count.
pub proof fn law_samples_balance(rect: Rect, history: Seq<ModelState>, i: int)
    requires
        is_history(rect, history),
        0 <= i < history.len(),
    ensures
        history[i].wf(),
        sample_sum(history[i].arms) == history[i].total_samples,
        forall|k: int|
            0 <= k < history[i].arms.len() ==> (#[trigger] history[i].arms[k]).samples
                <= history[i].total_samples,
    decreases i,
{
    if i == 0 {
        reveal_with_fuel(sample_sum, 6);
        let arms = ModelState::fresh(rect).arms;
        assert(sample_sum(arms) == 0);
    } else {
        law_samples_balance(rect, history, i - 1);
        let before = history[i - 1];
        let after = history[i];
        assert(observation_leads(before, after));
        law_observation_keeps_layout(before, after);
        let (update, draws, bar) = choose|update: StatUpdate, draws: Seq<Scalar>, bar: Scalar|
            observation_step(before, update, draws, bar, after);
        lemma_sample_sum_update(
            before.arms,
            before.active_arm,
            before.active().sampled(update),
        );
        assert(after.arms == before.observed(update).arms);
    }
    assert forall|k: int| 0 <= k < history[i].arms.len() implies (
    #[trigger] history[i].arms[k]).samples <= history[i].total_samples by {
        lemma_sample_sum_bounds(history[i].arms, k);
    }
}

/// Every tracked widget, by the fingerprint of its key.
#[derive(Debug)]
pub struct KibaModel {
    pub widgets: HashMap<u64, WidgetModel>,
    /// The key behind each fingerprint that was asked for.
    pub key_lookup: HashMap<u64, WidgetKey>,
}

impl Default for KibaModel {
    fn default() -> (model: KibaModel)
        ensures
            model.widgets@ == Map::<u64, WidgetModel>::empty(),
            model.key_lookup@ == Map::<u64, WidgetKey>::empty(),
    {
        KibaModel { widgets: HashMap::new(), key_lookup: HashMap::new() }
    }
}

impl KibaModel {
    /// What is known of the widget with fingerprint `fp`.
    pub open spec fn known(self, fp: u64) -> Option<ModelState> {
        if self.widgets@.contains_key(fp) {
            Some(self.widgets@[fp]@)
        } else {
            None
        }
    }

    /// The key registered under `fp`.
    pub open spec fn key_of(self, fp: u64) -> Option<WidgetIdentity> {
        if self.key_lookup@.contains_key(fp) {
            Some(self.key_lookup@[fp]@)
        } else {
            None
        }
    }

    pub fn new() -> (model: KibaModel)
        ensures
            model.widgets@ == Map::<u64, WidgetModel>::empty(),
            model.key_lookup@ == Map::<u64, WidgetKey>::empty(),
    {
        KibaModel::default()
    }

    /// The model of a widget, made with `default_rect` the first time that the
    /// widget is seen. The first key seen under a fingerprint stays on record.
    pub fn widget_mut(&mut self, key: &WidgetKey, default_rect: Rect) -> (widget: &mut WidgetModel)
        ensures
            widget@ == (match old(self).known(fingerprint_of(key@)) {
                Some(state) => state,
                None => ModelState::fresh(default_rect),
            }),
            final(self).widgets@ == old(self).widgets@.insert(fingerprint_of(key@), *final(widget)),
            final(self).key_of(fingerprint_of(key@)) == (match old(self).key_of(
                fingerprint_of(key@),
            ) {
                Some(first) => Some(first),
                None => Some(key@),
            }),
            final(self).key_lookup@.remove(fingerprint_of(key@)) == old(self).key_lookup@.remove(
                fingerprint_of(key@),
            ),
    {
        let fp: u64 = key.fingerprint();
        if !self.key_lookup.contains_key(&fp) {
            self.key_lookup.insert(fp, key.clone());
        }
        assert(self.key_lookup@.remove(fp) =~= old(self).key_lookup@.remove(fp));
        self.widgets.entry(fp).or_insert(WidgetModel::new(default_rect))
    }

    /// The model of a widget, if the widget is known.
    pub fn get(&self, key: &WidgetKey) -> (widget: Option<&WidgetModel>)
        ensures
            match widget {
                Some(model) => self.known(fingerprint_of(key@)) == Some(model@),
                None => self.known(fingerprint_of(key@)) is None,
            },
    {
        self.widgets.get(&key.fingerprint())
    }
}

/// An arm only takes over by drawing more than the active one did, and against an
/// incumbent with five samples or more also by clearing the bar.
pub proof fn law_new_arm_drew_more(
    state: ModelState,
    draws: Seq<Scalar>,
    bar: Scalar,
    winner: int,
)
    requires
        state.wf(),
        state.selects(draws, bar, winner),
    ensures
        0 <= winner < state.arms.len(),
        winner != state.active_arm ==> draws[winner].above(draws[state.active_arm]),
        winner != state.active_arm && state.arms[state.active_arm].samples >= 5
            ==> draws[winner].above(bar),
{
}

/// The active arm stays when no other arm drew more, however many samples any of
/// them has.
pub proof fn law_best_draw_stays(state: ModelState, draws: Seq<Scalar>, bar: Scalar, winner: int)
    requires
        state.wf(),
        state.selects(draws, bar, winner),
        forall|i: int|
            0 <= i < state.arms.len() && i != state.active_arm ==> !(
            #[trigger] draws[i]).above(draws[state.active_arm]),
    ensures
        winner == state.active_arm,
{
    if winner != state.active_arm {
        assert(!draws[winner].above(draws[state.active_arm]));
    }
}

/// A challenger that drew more than the active arm, and cleared the bar if the
/// active arm has five samples or more, is heard: the active arm goes, and no
/// lower draw is put before the challenger's. Of equal draws the first counts.
pub proof fn law_better_draw_is_heard(
    state: ModelState,
    draws: Seq<Scalar>,
    bar: Scalar,
    winner: int,
    i: int,
)
    requires
        state.wf(),
        state.selects(draws, bar, winner),
        0 <= i < state.arms.len(),
        i != state.active_arm,
        draws[i].above(draws[state.active_arm]),
        state.arms[state.active_arm].samples >= 5 ==> draws[i].above(bar),
    ensures
        winner != state.active_arm,
        !draws[i].above(draws[winner]),
        i < winner ==> draws[winner].above(draws[i]),
{
    assert(state.challenges(draws, bar, i));
}

/// An observation moves the baseline to the one it came with, whether or not the
/// widget had one; it counts once for the widget and once for the active arm,
/// whose statistics become the ones it came with; and it touches nothing else.
pub proof fn law_observation_is_folded_in(state: ModelState, update: StatUpdate)
    requires
        state.can_observe(),
    ensures
        ({
            let after = state.observed(update);
            let arm = after.arms[state.active_arm];
            &&& after.baseline_rt_ms == Some(update.baseline_rt_ms)
            &&& after.total_samples == state.total_samples + 1
            &&& after.active_arm == state.active_arm
            &&& after.default_rect == state.default_rect
            &&& after.arms.len() == state.arms.len()
            &&& arm.samples == state.arms[state.active_arm].samples + 1
            &&& arm.mean_reward == update.mean_reward
            &&& arm.m2 == update.m2
            &&& arm.offset == state.arms[state.active_arm].offset
            &&& forall|i: int|
                0 <= i < after.arms.len() && i != state.active_arm ==> #[trigger] after.arms[i]
                    == state.arms[i]
        }),
{
}

/// The last observation counts: of two in a row, the second one's baseline
/// stands.
pub proof fn law_baseline_is_not_frozen(
    state: ModelState,
    first: StatUpdate,
    second: StatUpdate,
)
    requires
        state.can_observe(),
        state.observed(first).can_observe(),
    ensures
        state.observed(first).observed(second).baseline_rt_ms == Some(second.baseline_rt_ms),
        state.observed(first).observed(second).total_samples == state.total_samples + 2,
{
}

/// A widget may move from its twelfth observation on, and not before.
pub proof fn law_burn_in_is_twelve_clicks(state: ModelState, update: StatUpdate)
    requires
        state.can_observe(),
    ensures
        state.observed(update).past_burn_in() <==> state.total_samples + 1 >= 12,
{
}

/// Anything with a valid active arm and room in its counters can be observed.
pub proof fn law_room_is_enough_to_observe(state: ModelState)
    requires
        0 <= state.active_arm < state.arms.len(),
    ensures
        state.wf(),
        state.total_samples < 0xffff_ffff && state.arms[state.active_arm].samples < 0xffff_ffff
            ==> state.can_observe(),
{
}

/// A widget is rendered at its default rectangle moved by the active arm's
/// offset: each coordinate by its own part, the size kept. It counts as moved if
/// either part is not zero.
pub proof fn law_rendering_follows_offset(state: ModelState)
    requires
        0 <= state.active_arm < state.arms.len(),
        -0x8000_0000 <= state.default_rect.x + state.arms[state.active_arm].offset.0
            <= 0x7fff_ffff,
        -0x8000_0000 <= state.default_rect.y + state.arms[state.active_arm].offset.1
            <= 0x7fff_ffff,
    ensures
        state.can_render(),
        state.current().x - state.default_rect.x == state.arms[state.active_arm].offset.0,
        state.current().y - state.default_rect.y == state.arms[state.active_arm].offset.1,
        state.current().w == state.default_rect.w,
        state.current().h == state.default_rect.h,
        state.relocated() <==> state.arms[state.active_arm].offset != (0i32, 0i32),
{
}

/// A new widget knows nothing and has five candidates: where it is, and one step
/// of 40 pixels in each of the four directions.
pub proof fn law_new_widget_is_blank(rect: Rect)
    ensures
        ({
            let state = ModelState::fresh(rect);
            &&& state.default_rect == rect
            &&& state.baseline_rt_ms is None
            &&& state.total_samples == 0
            &&& state.active_arm == 0
            &&& state.arms.len() == 5
            &&& state.arms[0].offset == (0i32, 0i32)
            &&& forall|i: int|
                0 <= i < 5 ==> (#[trigger] state.arms[i]).samples == 0
                    && state.arms[i].mean_reward.bits == 0 && state.arms[i].m2.bits == 0
            &&& forall|i: int|
                1 <= i < 5 ==> {
                    let (dx, dy) = (#[trigger] state.arms[i]).offset;
                    ||| dx == 0 && (dy == 40 || dy == -40)
                    ||| dy == 0 && (dx == 40 || dx == -40)
                }
            &&& forall|i: int, j: int|
                0 <= i < j < 5 ==> (#[trigger] state.arms[i]).offset != (
                #[trigger] state.arms[j]).offset
        }),
{
}

/// In a round every arm draws once: the active one first, the others by index.
pub proof fn law_every_arm_draws_once(state: ModelState)
    requires
        state.wf(),
    ensures
        state.draw_sequence().len() == state.arms.len(),
        state.draw_sequence()[0] == state.active_arm,
        forall|i: int| 0 <= i < state.arms.len() ==> #[trigger] state.draw_sequence().contains(i),
        forall|j: int, k: int|
            1 <= j < k < state.arms.len() ==> #[trigger] state.draw_sequence()[j]
                < #[trigger] state.draw_sequence()[k],
        forall|j: int|
            1 <= j < state.arms.len() ==> #[trigger] state.draw_sequence()[j] != state.active_arm,
{
    let all = Seq::new(state.arms.len(), |i: int| i);
    let rest = all.remove(state.active_arm);
    let order = state.draw_sequence();
    assert(rest.len() == all.len() - 1);
    assert forall|j: int| 1 <= j < state.arms.len() implies #[trigger] order[j] == (if j
        <= state.active_arm {
        j - 1
    } else {
        j
    }) by {
        assert(order[j] == rest[j - 1]);
    }
    assert forall|i: int| 0 <= i < state.arms.len() implies #[trigger] order.contains(i) by {
        if i == state.active_arm {
            assert(order[0] == i);
        } else if i < state.active_arm {
            assert(order[i + 1] == i);
        } else {
            assert(order[i] == i);
        }
    }
}

/// A new arm stands at its offset and has seen nothing; a sample adds one to its
/// count, brings its statistics, and leaves it where it is.
pub proof fn law_arm_counts_its_samples(offset: (i32, i32), arm: Arm, update: StatUpdate)
    requires
        arm.samples < 0xffff_ffff,
    ensures
        Arm::fresh(offset).offset == offset,
        Arm::fresh(offset).samples == 0,
        Arm::fresh(offset).mean_reward.bits == 0,
        Arm::fresh(offset).m2.bits == 0,
        arm.sampled(update).samples == arm.samples + 1,
        arm.sampled(update).offset == arm.offset,
        arm.sampled(update).mean_reward == update.mean_reward,
        arm.sampled(update).m2 == update.m2,
{
}

/// A widget is known exactly if it has a model, and a key exactly if it is on
/// record.
pub proof fn law_known_is_what_is_kept(model: KibaModel, fp: u64)
    ensures
        model.known(fp) is Some <==> model.widgets@.contains_key(fp),
        model.known(fp) matches Some(state) ==> state == model.widgets@[fp]@,
        model.key_of(fp) is Some <==> model.key_lookup@.contains_key(fp),
        model.key_of(fp) matches Some(id) ==> id == model.key_lookup@[fp]@,
{
}

/// A corrected click weighs far more than the margin that protects an incumbent,
/// and the margin is wider than the standard deviation of an arm that was never
/// tried.
pub proof fn law_weights_are_graded()
    ensures
        CORRECTION_PENALTY_MS == 400,
        HYSTERESIS_MARGIN == 15,
        PRIOR_VARIANCE == 100,
        DEFAULT_REACTION_MS == 200,
        CORRECTION_PENALTY_MS > HYSTERESIS_MARGIN,
        HYSTERESIS_MARGIN * HYSTERESIS_MARGIN > PRIOR_VARIANCE,
{
}

} // verus!
