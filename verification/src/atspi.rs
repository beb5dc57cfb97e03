//! What is on screen, as the accessibility bus reports it.
//!
//! The registry maps each known widget to its rectangle and to the time at
//! which it last became actionable. That time is what turns a click into a
//! reaction time. Times are nanoseconds on one monotonic clock.
//!
//! Widgets keep the order in which they were first seen; where rectangles
//! overlap, the widget that was seen first takes the click.
use vstd::prelude::*;

use crate::text::same_text;
use crate::types::{Rect, WidgetKey};
#[allow(unused_imports)]
use crate::types::WidgetIdentity;

verus! {

/// The interface on which the bus reports object events.
pub const EVENT_INTERFACE: &'static str = "org.a11y.atspi.Event.Object";

/// The event of a widget that moved or changed its size.
pub const BOUNDS_CHANGED: &'static str = "BoundsChanged";

/// The event of a widget whose state changed.
pub const STATE_CHANGED: &'static str = "StateChanged";

/// One widget in the registry.
#[derive(Debug)]
pub struct RegistryEntry {
    pub key: WidgetKey,
    pub rect: Rect,
    /// When the widget last became actionable; `None` until that has been seen.
    pub became_actionable_at: Option<u64>,
}

/// What a [`RegistryEntry`] says.
pub struct KnownWidget {
    pub id: WidgetIdentity,
    pub rect: Rect,
    pub since: Option<u64>,
}

impl View for RegistryEntry {
    type V = KnownWidget;

    open spec fn view(&self) -> KnownWidget {
        KnownWidget { id: self.key@, rect: self.rect, since: self.became_actionable_at }
    }
}

/// Every widget currently known.
#[derive(Debug)]
pub struct WidgetRegistry {
    pub entries: Vec<RegistryEntry>,
}

impl View for WidgetRegistry {
    type V = Seq<KnownWidget>;

    open spec fn view(&self) -> Seq<KnownWidget> {
        self.entries@.map_values(|entry: RegistryEntry| entry@)
    }
}

/// No widget is listed twice.
pub open spec fn distinct(known: Seq<KnownWidget>) -> bool {
    forall|i: int, j: int|
        0 <= i < j < known.len() ==> (#[trigger] known[i]).id != (#[trigger] known[j]).id
}

/// The position of a widget, or the length if it is not known.
pub open spec fn position(known: Seq<KnownWidget>, id: WidgetIdentity) -> int
    decreases known.len(),
{
    if known.len() == 0 || known[0].id == id {
        0
    } else {
        1 + position(known.drop_first(), id)
    }
}

/// What is known of a widget.
pub open spec fn lookup(known: Seq<KnownWidget>, id: WidgetIdentity) -> Option<KnownWidget> {
    if position(known, id) < known.len() {
        Some(known[position(known, id)])
    } else {
        None
    }
}

/// The registry after a widget was seen at `rect`. A known widget keeps its
/// place and its time; a new one goes to the end, without a time.
pub open spec fn upserted(known: Seq<KnownWidget>, id: WidgetIdentity, rect: Rect) -> Seq<
    KnownWidget,
> {
    let at = position(known, id);
    if at < known.len() {
        known.update(at, KnownWidget { id, rect, since: known[at].since })
    } else {
        known.push(KnownWidget { id, rect, since: None })
    }
}

/// The registry after a widget became actionable at `now`. A widget that is not
/// known stays unknown.
pub open spec fn marked(known: Seq<KnownWidget>, id: WidgetIdentity, now: u64) -> Seq<
    KnownWidget,
> {
    let at = position(known, id);
    if at < known.len() {
        known.update(at, KnownWidget { id, rect: known[at].rect, since: Some(now) })
    } else {
        known
    }
}

/// The first widget under the point `(x, y)`, or the length if there is none.
pub open spec fn hit(known: Seq<KnownWidget>, x: int, y: int) -> int
    decreases known.len(),
{
    if known.len() == 0 || known[0].rect.covers(x, y) {
        0
    } else {
        1 + hit(known.drop_first(), x, y)
    }
}

/// Looking for the widget under `(x, y)` stays within `i32` on every rectangle
/// that is looked at.
pub open spec fn can_hit(known: Seq<KnownWidget>, x: int, y: int) -> bool
    decreases known.len(),
{
    known.len() == 0 || {
        &&& known[0].rect.can_test(x, y)
        &&& known[0].rect.covers(x, y) || can_hit(known.drop_first(), x, y)
    }
}

/// Nanoseconds from `since` to `now`; a time still to come counts as now.
pub open spec fn elapsed(since: Option<u64>, now: u64) -> Option<u64> {
    match since {
        Some(then) => Some(if now >= then {
            (now - then) as u64
        } else {
            0
        }),
        None => None,
    }
}

proof fn lemma_position_bounds(known: Seq<KnownWidget>, id: WidgetIdentity)
    ensures
        0 <= position(known, id) <= known.len(),
        position(known, id) < known.len() ==> known[position(known, id)].id == id,
        forall|i: int| 0 <= i < position(known, id) ==> (#[trigger] known[i]).id != id,
    decreases known.len(),
{
    if known.len() > 0 && known[0].id != id {
        lemma_position_bounds(known.drop_first(), id);
        assert forall|i: int| 0 <= i < position(known, id) implies (#[trigger] known[i]).id
            != id by {
            if i > 0 {
                assert(known[i] == known.drop_first()[i - 1]);
            }
        }
    }
}

proof fn lemma_position_unique(known: Seq<KnownWidget>, id: WidgetIdentity, at: int)
    requires
        0 <= at <= known.len(),
        at < known.len() ==> known[at].id == id,
        forall|i: int| 0 <= i < at ==> (#[trigger] known[i]).id != id,
    ensures
        position(known, id) == at,
{
    lemma_position_bounds(known, id);
    let found = position(known, id);
    if found < at {
        assert(known[found].id != id);
    }
}

proof fn lemma_hit_bounds(known: Seq<KnownWidget>, x: int, y: int)
    ensures
        0 <= hit(known, x, y) <= known.len(),
        hit(known, x, y) < known.len() ==> known[hit(known, x, y)].rect.covers(x, y),
        forall|i: int| 0 <= i < hit(known, x, y) ==> !(#[trigger] known[i]).rect.covers(x, y),
    decreases known.len(),
{
    if known.len() > 0 && !known[0].rect.covers(x, y) {
        lemma_hit_bounds(known.drop_first(), x, y);
        assert forall|i: int| 0 <= i < hit(known, x, y) implies !(
        #[trigger] known[i]).rect.covers(x, y) by {
            if i > 0 {
                assert(known[i] == known.drop_first()[i - 1]);
            }
        }
    }
}

impl WidgetRegistry {
    /// No widget is listed twice.
    pub open spec fn wf(self) -> bool {
        distinct(self@)
    }

    pub fn new() -> (registry: WidgetRegistry)
        ensures
            registry.wf(),
            registry@ == Seq::<KnownWidget>::empty(),
    {
        let registry = WidgetRegistry { entries: Vec::new() };
        assert(registry@ =~= Seq::<KnownWidget>::empty());
        registry
    }

    /// The position of a widget, or the length if it is not known.
    fn index_of(&self, key: &WidgetKey) -> (at: usize)
        ensures
            at == position(self@, key@),
            at <= self.entries.len(),
    {
        let mut i: usize = 0;
        while i < self.entries.len()
            invariant
                i <= self.entries.len(),
                forall|j: int| 0 <= j < i ==> (#[trigger] self@[j]).id != key@,
            decreases self.entries.len() - i,
        {
            if self.entries[i].key == *key {
                proof {
                    assert(self@[i as int] == self.entries@[i as int]@);
                    lemma_position_unique(self@, key@, i as int);
                }
                return i;
            }
            proof {
                assert(self@[i as int] == self.entries@[i as int]@);
            }
            i = i + 1;
        }
        proof {
            lemma_position_unique(self@, key@, i as int);
        }
        i
    }

    /// Notes that a widget is at `rect`.
    pub fn upsert_rect(&mut self, key: WidgetKey, rect: Rect)
        requires
            old(self).wf(),
        ensures
            final(self).wf(),
            final(self)@ == upserted(old(self)@, key@, rect),
    {
        let at: usize = self.index_of(&key);
        proof {
            lemma_position_bounds(self@, key@);
        }
        if at < self.entries.len() {
            self.entries[at].rect = rect;
        } else {
            self.entries.push(RegistryEntry { key, rect, became_actionable_at: None });
        }
        proof {
            assert(self@ =~= upserted(old(self)@, key@, rect));
        }
    }

    /// Notes that a known widget became actionable at `now`.
    pub fn mark_actionable(&mut self, key: &WidgetKey, now: u64)
        requires
            old(self).wf(),
        ensures
            final(self).wf(),
            final(self)@ == marked(old(self)@, key@, now),
    {
        let at: usize = self.index_of(key);
        proof {
            lemma_position_bounds(self@, key@);
        }
        if at < self.entries.len() {
            self.entries[at].became_actionable_at = Some(now);
        }
        proof {
            assert(self@ =~= marked(old(self)@, key@, now));
        }
    }

    /// The widget under a click, its rectangle, and the nanoseconds since it
    /// became actionable, if that is known.
    pub fn resolve_click(&self, x: i32, y: i32, now: u64) -> (found: Option<
        (WidgetKey, Rect, Option<u64>),
    >)
        requires
            can_hit(self@, x as int, y as int),
        ensures
            match found {
                Some((key, rect, reaction)) => {
                    let at = hit(self@, x as int, y as int);
                    &&& 0 <= at < self@.len()
                    &&& key@ == self@[at].id
                    &&& rect == self@[at].rect
                    &&& reaction == elapsed(self@[at].since, now)
                },
                None => hit(self@, x as int, y as int) == self@.len(),
            },
    {
        let mut i: usize = 0;
        proof {
            assert(self@.skip(0) =~= self@);
        }
        while i < self.entries.len()
            invariant
                i <= self.entries.len(),
                can_hit(self@.skip(i as int), x as int, y as int),
                hit(self@, x as int, y as int) == i + hit(self@.skip(i as int), x as int, y as int),
            decreases self.entries.len() - i,
        {
            proof {
                assert(self@.skip(i as int).drop_first() =~= self@.skip(i + 1));
                assert(self@.skip(i as int)[0] == self.entries@[i as int]@);
            }
            let entry: &RegistryEntry = &self.entries[i];
            if entry.rect.contains(x, y) {
                let reaction: Option<u64> = match entry.became_actionable_at {
                    Some(then) => Some(
                        if now >= then {
                            now - then
                        } else {
                            0
                        },
                    ),
                    None => None,
                };
                return Some((entry.key.clone(), entry.rect, reaction));
            }
            i = i + 1;
        }
        None
    }

    /// Whether [`WidgetRegistry::resolve_click`] may be asked about `(x, y)`.
    pub fn click_in_range(&self, x: i32, y: i32) -> (ok: bool)
        ensures
            ok == can_hit(self@, x as int, y as int),
    {
        let mut i: usize = 0;
        proof {
            assert(self@.skip(0) =~= self@);
        }
        while i < self.entries.len()
            invariant
                i <= self.entries.len(),
                can_hit(self@, x as int, y as int) == can_hit(
                    self@.skip(i as int),
                    x as int,
                    y as int,
                ),
            decreases self.entries.len() - i,
        {
            proof {
                assert(self@.skip(i as int).drop_first() =~= self@.skip(i + 1));
                assert(self@.skip(i as int)[0] == self.entries@[i as int]@);
            }
            if !self.entries[i].rect.test_in_range(x, y) {
                return false;
            }
            if self.entries[i].rect.contains(x, y) {
                return true;
            }
            i = i + 1;
        }
        true
    }

    /// How many widgets are known.
    pub fn snapshot_len(&self) -> (len: usize)
        ensures
            len == self@.len(),
    {
        self.entries.len()
    }
}

/// An event of the accessibility bus, as far as it can be decoded.
#[derive(Debug)]
pub struct ObjectEvent {
    /// The kind of event.
    pub member: Option<String>,
    /// The application that sent it.
    pub sender: Option<String>,
    /// The object that it is about.
    pub path: Option<String>,
    /// The new rectangle as `(x, y, width, height)`, where the event carries
    /// one.
    pub bounds: Option<(i32, i32, i32, i32)>,
    /// The name of the state that changed, where the event carries one.
    pub kind: Option<String>,
    /// 1 if the state is now on.
    pub detail1: Option<i32>,
}

/// The widget that an event is about. Role and label are not resolved.
pub open spec fn event_widget(event: ObjectEvent) -> WidgetIdentity {
    WidgetIdentity {
        app_id: match event.sender {
            Some(name) => name@,
            None => "unknown"@,
        },
        role: "unknown"@,
        label: "unknown"@,
        tree_path: match event.path {
            Some(path) => path@,
            None => "/unknown"@,
        },
    }
}

/// The event says that a widget is now showing or enabled.
pub open spec fn turns_actionable(event: ObjectEvent) -> bool {
    &&& event.kind matches Some(kind)
    &&& kind@ == "showing"@ || kind@ == "enabled"@
    &&& event.detail1 == Some(1i32)
}

/// The registry after an event that arrived at `now`.
pub open spec fn after_event(known: Seq<KnownWidget>, event: ObjectEvent, now: u64) -> Seq<
    KnownWidget,
> {
    match event.member {
        Some(member) => if member@ == BOUNDS_CHANGED@ {
            match event.bounds {
                Some((x, y, w, h)) => upserted(known, event_widget(event), Rect { x, y, w, h }),
                None => known,
            }
        } else if member@ == STATE_CHANGED@ && turns_actionable(event) {
            marked(known, event_widget(event), now)
        } else {
            known
        },
        None => known,
    }
}

/// Whether a state event says that a widget became actionable.
pub fn is_now_actionable(event: &ObjectEvent) -> (actionable: bool)
    ensures
        actionable == turns_actionable(*event),
{
    match (&event.kind, event.detail1) {
        (Some(kind), Some(detail)) => detail == 1 && (same_text(kind.as_str(), "showing")
            || same_text(kind.as_str(), "enabled")),
        _ => false,
    }
}

/// The key of the widget that an event is about.
fn event_key(event: &ObjectEvent) -> (key: WidgetKey)
    ensures
        key@ == event_widget(*event),
{
    let app: String = match &event.sender {
        Some(name) => name.clone(),
        None => "unknown".to_string(),
    };
    let path: String = match &event.path {
        Some(path) => path.clone(),
        None => "/unknown".to_string(),
    };
    WidgetKey::new(app, "unknown", "unknown", path)
}

/// Brings the registry up to date with one event.
pub fn handle_object_event(registry: &mut WidgetRegistry, event: &ObjectEvent, now: u64)
    requires
        old(registry).wf(),
    ensures
        final(registry).wf(),
        final(registry)@ == after_event(old(registry)@, *event, now),
{
    proof {
        reveal_strlit("BoundsChanged");
        reveal_strlit("StateChanged");
        assert(BOUNDS_CHANGED@.len() == 13 && STATE_CHANGED@.len() == 12);
    }
    if let Some(member) = &event.member {
        if same_text(member.as_str(), BOUNDS_CHANGED) {
            if let Some((x, y, w, h)) = event.bounds {
                registry.upsert_rect(event_key(event), Rect { x, y, w, h });
            }
        } else if same_text(member.as_str(), STATE_CHANGED) {
            if is_now_actionable(event) {
                registry.mark_actionable(&event_key(event), now);
            }
        }
    }
}

/// A widget that was just seen is known at the place where it was seen, and its
/// time is the one it had before.
pub proof fn law_upsert_is_looked_up(known: Seq<KnownWidget>, id: WidgetIdentity, rect: Rect)
    ensures
        lookup(upserted(known, id, rect), id) == Some(
            KnownWidget {
                id,
                rect,
                since: match lookup(known, id) {
                    Some(widget) => widget.since,
                    None => None,
                },
            },
        ),
{
    lemma_position_bounds(known, id);
    let at = position(known, id);
    lemma_position_unique(upserted(known, id, rect), id, at);
}

/// Seeing or marking one widget tells nothing about any other.
pub proof fn law_other_widgets_are_untouched(
    known: Seq<KnownWidget>,
    id: WidgetIdentity,
    rect: Rect,
    now: u64,
    other: WidgetIdentity,
)
    requires
        other != id,
    ensures
        lookup(upserted(known, id, rect), other) == lookup(known, other),
        lookup(marked(known, id, now), other) == lookup(known, other),
{
    lemma_position_bounds(known, id);
    lemma_position_bounds(known, other);
    let at = position(known, other);
    lemma_position_unique(marked(known, id, now), other, at);
    if at < known.len() || position(known, id) < known.len() {
        lemma_position_unique(upserted(known, id, rect), other, at);
    } else {
        lemma_position_unique(upserted(known, id, rect), other, at + 1);
    }
}

/// A widget that was never seen to become actionable has no reaction time, and
/// a state event cannot make an unknown widget known.
pub proof fn law_no_bogus_reaction_time(
    known: Seq<KnownWidget>,
    id: WidgetIdentity,
    rect: Rect,
    now: u64,
)
    requires
        lookup(known, id) is None,
    ensures
        lookup(marked(known, id, now), id) is None,
        lookup(upserted(known, id, rect), id) matches Some(widget) && elapsed(widget.since, now)
            is None,
{
    law_upsert_is_looked_up(known, id, rect);
}

/// A click measures the time since the widget last became actionable.
pub proof fn law_reaction_time_is_measured(
    known: Seq<KnownWidget>,
    id: WidgetIdentity,
    shown: u64,
    clicked: u64,
)
    requires
        lookup(known, id) is Some,
        shown <= clicked,
    ensures
        lookup(marked(known, id, shown), id) matches Some(widget) && widget.rect == lookup(
            known,
            id,
        )->0.rect && elapsed(widget.since, clicked) == Some((clicked - shown) as u64),
{
    lemma_position_bounds(known, id);
    let at = position(known, id);
    lemma_position_unique(marked(known, id, shown), id, at);
}

/// A click resolves exactly when some known widget is under it, and then to a
/// widget that is.
pub proof fn law_click_finds_a_widget(known: Seq<KnownWidget>, x: int, y: int)
    ensures
        hit(known, x, y) < known.len() <==> exists|i: int|
            0 <= i < known.len() && (#[trigger] known[i]).rect.covers(x, y),
        hit(known, x, y) < known.len() ==> known[hit(known, x, y)].rect.covers(x, y),
{
    lemma_hit_bounds(known, x, y);
    if exists|i: int| 0 <= i < known.len() && (#[trigger] known[i]).rect.covers(x, y) {
        let i = choose|i: int| 0 <= i < known.len() && (#[trigger] known[i]).rect.covers(x, y);
        if hit(known, x, y) > i {
            assert(!known[i].rect.covers(x, y));
        }
    }
}

/// A click delivered to the center of a widget resolves to that widget, unless
/// one that was seen before it lies under the same point.
pub proof fn law_center_click_resolves(known: Seq<KnownWidget>, i: int)
    requires
        0 <= i < known.len(),
        known[i].rect.w > 0,
        known[i].rect.h > 0,
        forall|j: int|
            0 <= j < i ==> !(#[trigger] known[j]).rect.covers(
                known[i].rect.middle().0,
                known[i].rect.middle().1,
            ),
    ensures
        hit(known, known[i].rect.middle().0, known[i].rect.middle().1) == i,
{
    let (x, y) = known[i].rect.middle();
    crate::types::law_center_is_inside(known[i].rect);
    lemma_hit_bounds(known, x, y);
    let found = hit(known, x, y);
    if found > i {
        assert(!known[i].rect.covers(x, y));
    }
}

/// After a widget was seen at a rectangle it is listed, once, at that rectangle,
/// whether or not it was known before. A known widget keeps the time at which it
/// became actionable, a new one has none, and every other widget stays as it
/// was.
pub proof fn law_seen_widget_is_where_it_was_seen(
    known: Seq<KnownWidget>,
    id: WidgetIdentity,
    rect: Rect,
)
    requires
        distinct(known),
    ensures
        ({
            let after = upserted(known, id, rect);
            &&& exists|i: int| 0 <= i < after.len() && (#[trigger] after[i]).id == id
            &&& forall|i: int|
                0 <= i < after.len() && (#[trigger] after[i]).id == id ==> after[i].rect == rect
            &&& forall|i: int|
                0 <= i < known.len() && (#[trigger] known[i]).id != id ==> after[i] == known[i]
            &&& forall|i: int|
                0 <= i < known.len() && (#[trigger] known[i]).id == id ==> after[i].id == id
                    && after[i].since == known[i].since
            &&& forall|i: int|
                known.len() <= i < after.len() ==> (#[trigger] after[i]).id == id
                    && after[i].since is None
            &&& known.len() <= after.len()
            &&& forall|i: int, j: int|
                0 <= i < j < after.len() ==> (#[trigger] after[i]).id != (
                #[trigger] after[j]).id
        }),
{
    lemma_position_bounds(known, id);
    let at = position(known, id);
    let after = upserted(known, id, rect);
    assert(after[at].id == id);
    assert forall|i: int| 0 <= i < known.len() && (#[trigger] known[i]).id == id implies i == at by {
        if at < known.len() && i != at {
            if i < at {
                assert(known[i].id != known[at].id);
            } else {
                assert(known[at].id != known[i].id);
            }
        }
    }
    assert forall|i: int, j: int| 0 <= i < j < after.len() implies (#[trigger] after[i]).id != (
    #[trigger] after[j]).id by {
        if i < known.len() && j < known.len() {
            assert(known[i].id != known[j].id);
        }
    }
}

/// After a known widget became actionable, its time is that moment, and its
/// rectangle and every other widget stay as they were. A widget that is not
/// known stays unknown.
pub proof fn law_actionable_widget_is_timed(
    known: Seq<KnownWidget>,
    id: WidgetIdentity,
    now: u64,
)
    requires
        distinct(known),
    ensures
        ({
            let after = marked(known, id, now);
            &&& after.len() == known.len()
            &&& forall|i: int|
                0 <= i < known.len() && (#[trigger] known[i]).id == id ==> after[i].id == id
                    && after[i].rect == known[i].rect && after[i].since == Some(now)
            &&& forall|i: int|
                0 <= i < known.len() && (#[trigger] known[i]).id != id ==> after[i] == known[i]
        }),
{
    lemma_position_bounds(known, id);
    let at = position(known, id);
    assert forall|i: int| 0 <= i < known.len() && (#[trigger] known[i]).id == id implies i == at by {
        if at < known.len() && i != at {
            if i < at {
                assert(known[i].id != known[at].id);
            } else {
                assert(known[at].id != known[i].id);
            }
        }
    }
}

/// The widget of an event is known by the sender and the path of the event.
pub proof fn law_event_names_its_widget(event: ObjectEvent)
    ensures
        ({
            let id = event_widget(event);
            &&& event.sender matches Some(name) ==> id.app_id == name@
            &&& event.sender is None ==> id.app_id == "unknown"@
            &&& event.path matches Some(path) ==> id.tree_path == path@
            &&& event.path is None ==> id.tree_path == "/unknown"@
            &&& id.role == "unknown"@
            &&& id.label == "unknown"@
        }),
{
}

/// After an event that a widget's bounds changed, and that says what they are,
/// the widget is listed, once, with exactly these bounds, whether or not it was
/// known before; the times and the other widgets are untouched.
pub proof fn law_bounds_event_places_widget(
    known: Seq<KnownWidget>,
    event: ObjectEvent,
    now: u64,
    x: i32,
    y: i32,
    w: i32,
    h: i32,
)
    requires
        distinct(known),
        event.member matches Some(member) && member@ == "BoundsChanged"@,
        event.bounds == Some((x, y, w, h)),
    ensures
        ({
            let after = after_event(known, event, now);
            let id = event_widget(event);
            &&& exists|i: int| 0 <= i < after.len() && (#[trigger] after[i]).id == id
            &&& forall|i: int|
                0 <= i < after.len() && (#[trigger] after[i]).id == id ==> after[i].rect.x == x
                    && after[i].rect.y == y && after[i].rect.w == w && after[i].rect.h == h
            &&& forall|i: int|
                0 <= i < known.len() && (#[trigger] known[i]).id != id ==> after[i] == known[i]
            &&& forall|i: int|
                0 <= i < known.len() && (#[trigger] known[i]).id == id ==> after[i].since
                    == known[i].since
            &&& forall|i: int|
                known.len() <= i < after.len() ==> (#[trigger] after[i]).since is None
        }),
{
    law_seen_widget_is_where_it_was_seen(known, event_widget(event), Rect { x, y, w, h });
}

/// The last word counts: a widget that moves twice is where it moved to last, and
/// a click in the new place finds it unless another widget lies there too.
pub proof fn law_moved_widget_is_clicked_in_new_place(
    known: Seq<KnownWidget>,
    event: ObjectEvent,
    now: u64,
    px: int,
    py: int,
)
    requires
        distinct(known),
        event.member matches Some(member) && member@ == "BoundsChanged"@,
        event.bounds matches Some((x, y, w, h)) && x <= px < x + w && y <= py < y + h,
        forall|i: int|
            0 <= i < known.len() && (#[trigger] known[i]).id != event_widget(event) ==> !(
            known[i].rect.x <= px < known[i].rect.x + known[i].rect.w && known[i].rect.y <= py
                < known[i].rect.y + known[i].rect.h),
    ensures
        ({
            let after = after_event(known, event, now);
            let at = hit(after, px, py);
            &&& 0 <= at < after.len()
            &&& after[at].id == event_widget(event)
            &&& Some((after[at].rect.x, after[at].rect.y, after[at].rect.w, after[at].rect.h))
                == event.bounds
        }),
{
    let (x, y, w, h) = event.bounds->0;
    let id = event_widget(event);
    let after = after_event(known, event, now);
    law_bounds_event_places_widget(known, event, now, x, y, w, h);
    law_seen_widget_is_where_it_was_seen(known, id, Rect { x, y, w, h });
    let i = choose|i: int| 0 <= i < after.len() && (#[trigger] after[i]).id == id;
    assert(after[i].rect.covers(px, py));
    law_click_finds_a_widget(after, px, py);
    let at = hit(after, px, py);
    lemma_hit_bounds(after, px, py);
    if after[at].id != id {
        assert(at < known.len());
        assert(known[at].id != id);
    }
}

/// After an event that a widget is now showing or enabled, the time of the
/// widget, if it is known, is the time of the event; nothing else changes.
pub proof fn law_state_event_starts_clock(
    known: Seq<KnownWidget>,
    event: ObjectEvent,
    now: u64,
)
    requires
        distinct(known),
        event.member matches Some(member) && member@ == "StateChanged"@,
        event.kind matches Some(kind) && (kind@ == "showing"@ || kind@ == "enabled"@),
        event.detail1 == Some(1i32),
    ensures
        ({
            let after = after_event(known, event, now);
            let id = event_widget(event);
            &&& after.len() == known.len()
            &&& forall|i: int|
                0 <= i < known.len() && (#[trigger] known[i]).id == id ==> after[i].id == id
                    && after[i].rect == known[i].rect && after[i].since == Some(now)
            &&& forall|i: int|
                0 <= i < known.len() && (#[trigger] known[i]).id != id ==> after[i] == known[i]
        }),
{
    reveal_strlit("BoundsChanged");
    reveal_strlit("StateChanged");
    assert("BoundsChanged"@.len() == 13 && "StateChanged"@.len() == 12);
    law_actionable_widget_is_timed(known, event_widget(event), now);
}

/// Any other event changes nothing: one of another kind, a change of bounds
/// without bounds, a change of another state, or a state that went off.
pub proof fn law_other_events_change_nothing(
    known: Seq<KnownWidget>,
    event: ObjectEvent,
    now: u64,
)
    requires
        !(event.member matches Some(member) && member@ == "BoundsChanged"@ && event.bounds is Some),
        !(event.member is Some && event.member->0@ == "StateChanged"@ && event.detail1 == Some(
            1i32,
        ) && event.kind is Some && (event.kind->0@ == "showing"@ || event.kind->0@
            == "enabled"@)),
    ensures
        after_event(known, event, now) == known,
{
}

/// A click goes to the first known widget under it.
pub proof fn law_click_goes_to_first_widget_under_it(
    known: Seq<KnownWidget>,
    x: int,
    y: int,
    i: int,
)
    requires
        0 <= i < known.len(),
        known[i].rect.x <= x < known[i].rect.x + known[i].rect.w,
        known[i].rect.y <= y < known[i].rect.y + known[i].rect.h,
        forall|j: int|
            0 <= j < i ==> !((#[trigger] known[j]).rect.x <= x < known[j].rect.x + known[j].rect.w
                && known[j].rect.y <= y < known[j].rect.y + known[j].rect.h),
    ensures
        hit(known, x, y) == i,
{
    lemma_hit_bounds(known, x, y);
    let found = hit(known, x, y);
    if found > i {
        assert(!known[i].rect.covers(x, y));
    }
    if found < i {
        assert(known[found].rect.covers(x, y));
    }
}

/// Where no known widget is under a click, none is found.
pub proof fn law_click_beside_all_widgets_finds_none(known: Seq<KnownWidget>, x: int, y: int)
    requires
        forall|j: int|
            0 <= j < known.len() ==> !((#[trigger] known[j]).rect.x <= x < known[j].rect.x
                + known[j].rect.w && known[j].rect.y <= y < known[j].rect.y + known[j].rect.h),
    ensures
        hit(known, x, y) == known.len(),
{
    lemma_hit_bounds(known, x, y);
}

/// A reaction time is there exactly if its start is, and start and reaction time
/// add up to the moment of the click; a start still to come counts as now.
pub proof fn law_reaction_time_adds_up(since: Option<u64>, now: u64)
    ensures
        elapsed(since, now) is Some <==> since is Some,
        since matches Some(then) && then <= now ==> elapsed(since, now)->0 + since->0 == now,
        since matches Some(then) && then > now ==> elapsed(since, now)->0 == 0,
{
}

/// While every rectangle's far edges are 32-bit coordinates, any click can be
/// looked up.
pub proof fn law_representable_widgets_are_clickable(known: Seq<KnownWidget>, x: int, y: int)
    requires
        forall|j: int|
            0 <= j < known.len() ==> -0x8000_0000 <= (#[trigger] known[j]).rect.x
                + known[j].rect.w <= 0x7fff_ffff && -0x8000_0000 <= known[j].rect.y
                + known[j].rect.h <= 0x7fff_ffff,
    ensures
        can_hit(known, x, y),
    decreases known.len(),
{
    if known.len() > 0 {
        let rest = known.drop_first();
        assert forall|j: int| 0 <= j < rest.len() implies -0x8000_0000 <= (
        #[trigger] rest[j]).rect.x + rest[j].rect.w <= 0x7fff_ffff && -0x8000_0000
            <= rest[j].rect.y + rest[j].rect.h <= 0x7fff_ffff by {
            assert(rest[j] == known[j + 1]);
        }
        law_representable_widgets_are_clickable(rest, x, y);
        crate::types::law_representable_rect_is_usable(known[0].rect, x, y);
    }
}

} // verus!
