//! What ties the parts together: loading the saved models, turning clicks into
//! observations, and telling the overlay which widgets have moved.
use vstd::prelude::*;

use crate::bandit::{KibaModel, WidgetModel};
use crate::overlay::ActiveZone;
use crate::scalar::Scalar;
use crate::types::WidgetKey;
#[allow(unused_imports)]
use crate::bandit::ModelState;
#[allow(unused_imports)]
use crate::overlay::click_target;
#[allow(unused_imports)]
use crate::types::fingerprint_of;
#[allow(unused_imports)]
use crate::types::Rect;
#[allow(unused_imports)]
use vstd::std_specs::iter::IteratorSpec;

verus! {

/// Turns of the main loop between two updates of the overlay's zones.
pub const SYNC_TICKS: u64 = 30;

/// Milliseconds that one turn of the main loop waits.
pub const TICK_MS: u64 = 16;

/// Whether the overlay's zones are due for an update at turn `tick`.
pub fn sync_due(tick: u64) -> (due: bool)
    ensures
        due == (tick % SYNC_TICKS == 0),
{
    tick % SYNC_TICKS == 0
}

/// The reaction time of a click: the measured one, else the widget's baseline,
/// else `fallback`.
pub fn reaction_time(measured: Option<Scalar>, baseline: Option<Scalar>, fallback: Scalar) -> (rt:
    Scalar)
    ensures
        rt == (match measured {
            Some(rt) => rt,
            None => match baseline {
                Some(rt) => rt,
                None => fallback,
            },
        }),
{
    match measured {
        Some(rt) => rt,
        None => match baseline {
            Some(rt) => rt,
            None => fallback,
        },
    }
}

/// The models by fingerprint after loading the rows in order: a later row of the
/// same widget replaces an earlier one.
pub open spec fn restored(rows: Seq<(WidgetKey, WidgetModel)>) -> Map<u64, WidgetModel>
    decreases rows.len(),
{
    if rows.len() == 0 {
        Map::empty()
    } else {
        restored(rows.drop_last()).insert(fingerprint_of(rows.last().0@), rows.last().1)
    }
}

/// A model of everything that was saved.
pub fn restore(rows: Vec<(WidgetKey, WidgetModel)>) -> (model: KibaModel)
    ensures
        model.widgets@ == restored(rows@),
        model.key_lookup@ == Map::<u64, WidgetKey>::empty(),
{
    let mut model = KibaModel::new();
    let ghost all = rows@;
    proof {
        assert(all.take(0) =~= Seq::empty());
    }
    for row in it: rows
        invariant
            it.seq() == all,
            model.widgets@ == restored(all.take(it.index())),
            model.key_lookup@ == Map::<u64, WidgetKey>::empty(),
    {
        let (key, widget): (WidgetKey, WidgetModel) = row;
        proof {
            assert(all.take(it.index() + 1).drop_last() =~= all.take(it.index()));
            assert(all.take(it.index() + 1).last() == all[it.index()]);
        }
        model.widgets.insert(key.fingerprint(), widget);
    }
    proof {
        assert(all.take(all.len() as int) =~= all);
    }
    model
}

/// The zones of one widget: none while it is where the application draws it,
/// else a mask over its original place and its new place.
pub open spec fn widget_zones(state: ModelState) -> Seq<ActiveZone> {
    if state.relocated() {
        seq![
            ActiveZone::Mask(state.default_rect),
            ActiveZone::Relocated {
                visible_at: state.current(),
                forward_to: state.default_rect,
            },
        ]
    } else {
        Seq::empty()
    }
}

/// The zones of the widgets with the given fingerprints, in that order.
pub open spec fn zones_along(widgets: Map<u64, WidgetModel>, order: Seq<u64>) -> Seq<ActiveZone>
    decreases order.len(),
{
    if order.len() == 0 {
        Seq::empty()
    } else {
        zones_along(widgets, order.drop_last()) + widget_zones(widgets[order.last()]@)
    }
}

/// `order` lists every widget once.
pub open spec fn lists_widgets(widgets: Map<u64, WidgetModel>, order: Seq<u64>) -> bool {
    order.no_duplicates() && order.to_set() == widgets.dom()
}

/// Every widget can be rendered.
pub open spec fn can_render_all(widgets: Map<u64, WidgetModel>) -> bool {
    forall|fp: u64| #[trigger] widgets.contains_key(fp) ==> widgets[fp]@.can_render()
}

/// The zones of all widgets, widget after widget in some order.
pub fn active_zones(model: &KibaModel) -> (zones: Vec<ActiveZone>)
    requires
        can_render_all(model.widgets@),
    ensures
        exists|order: Seq<u64>|
            lists_widgets(model.widgets@, order) && zones@ == #[trigger] zones_along(
                model.widgets@,
                order,
            ),
{
    let mut zones: Vec<ActiveZone> = Vec::new();
    let ghost widgets = model.widgets@;
    let keys = model.widgets.keys();
    let ghost order = keys.remaining().unref();
    for fp in it: keys
        invariant
            widgets == model.widgets@,
            can_render_all(widgets),
            order == it.seq().unref(),
            order.to_set() == widgets.dom(),
            order.no_duplicates(),
            zones@ == zones_along(widgets, order.take(it.index())),
    {
        proof {
            assert(order[it.index()] == *fp);
            assert(order.to_set().contains(*fp));
            assert(order.take(it.index() + 1).drop_last() =~= order.take(it.index()));
            assert(order.take(it.index() + 1).last() == *fp);
        }
        if let Some(widget) = model.widgets.get(fp) {
            let current: Rect = widget.current_rect();
            if current.x != widget.default_rect.x || current.y != widget.default_rect.y {
                zones.push(ActiveZone::Mask(widget.default_rect));
                zones.push(
                    ActiveZone::Relocated {
                        visible_at: current,
                        forward_to: widget.default_rect,
                    },
                );
            }
        }
        proof {
            assert(zones@ =~= zones_along(widgets, order.take(it.index() + 1)));
        }
    }
    proof {
        assert(order.take(order.len() as int) =~= order);
        assert(lists_widgets(widgets, order));
    }
    zones
}

/// Whether [`active_zones`] may be called.
pub fn zones_in_range(model: &KibaModel) -> (ok: bool)
    ensures
        ok == can_render_all(model.widgets@),
{
    let ghost widgets = model.widgets@;
    let keys = model.widgets.keys();
    let ghost order = keys.remaining().unref();
    for fp in it: keys
        invariant
            widgets == model.widgets@,
            order == it.seq().unref(),
            order.to_set() == widgets.dom(),
            forall|k: int|
                0 <= k < it.index() ==> widgets[#[trigger] order[k]]@.can_render(),
    {
        proof {
            assert(order[it.index()] == *fp);
            assert(order.to_set().contains(*fp));
            assert(widgets.contains_key(*fp));
        }
        if let Some(widget) = model.widgets.get(fp) {
            if !widget.render_in_range() {
                return false;
            }
        }
    }
    proof {
        assert forall|fp: u64| #[trigger] widgets.contains_key(fp) implies widgets[fp]@.can_render() by {
            assert(order.to_set().contains(fp));
            let k = choose|k: int| 0 <= k < order.len() && order[k] == fp;
            assert(widgets[order[k]]@.can_render());
        }
    }
    true
}

/// While every widget is where its application draws it, the overlay has no
/// zones and claims no input.
pub proof fn law_settled_widgets_claim_no_input(widgets: Map<u64, WidgetModel>, order: Seq<u64>)
    requires
        lists_widgets(widgets, order),
        forall|fp: u64| #[trigger] widgets.contains_key(fp) ==> !widgets[fp]@.relocated(),
    ensures
        zones_along(widgets, order).len() == 0,
{
    assert forall|k: int| 0 <= k < order.len() implies !widgets[#[trigger] order[k]]@.relocated() by {
        assert(order.to_set().contains(order[k]));
        assert(widgets.contains_key(order[k]));
    }
    lemma_settled(widgets, order);
}

proof fn lemma_settled(widgets: Map<u64, WidgetModel>, order: Seq<u64>)
    requires
        forall|k: int| 0 <= k < order.len() ==> !widgets[#[trigger] order[k]]@.relocated(),
    ensures
        zones_along(widgets, order).len() == 0,
    decreases order.len(),
{
    if order.len() > 0 {
        assert forall|k: int| 0 <= k < order.drop_last().len() implies !widgets[
        #[trigger] order.drop_last()[k]]@.relocated() by {
            assert(order.drop_last()[k] == order[k]);
        }
        lemma_settled(widgets, order.drop_last());
        assert(!widgets[order[order.len() - 1]]@.relocated());
    }
}

/// Where a relocated widget is shown, a click is always forwarded.
pub proof fn law_relocated_widget_is_clickable(
    widgets: Map<u64, WidgetModel>,
    order: Seq<u64>,
    fp: u64,
    x: int,
    y: int,
)
    requires
        lists_widgets(widgets, order),
        widgets.contains_key(fp),
        widgets[fp]@.relocated(),
        widgets[fp]@.current().covers(x, y),
    ensures
        click_target(zones_along(widgets, order), x, y) is Some,
{
    assert(order.to_set().contains(fp));
    let k = choose|k: int| 0 <= k < order.len() && order[k] == fp;
    lemma_zone_is_listed(widgets, order, k);
    let zones = zones_along(widgets, order);
    let state = widgets[fp]@;
    let zone = ActiveZone::Relocated {
        visible_at: state.current(),
        forward_to: state.default_rect,
    };
    let i = choose|i: int| 0 <= i < zones.len() && zones[i] == zone;
    lemma_listed_zone_forwards(zones, i, x, y);
}

proof fn lemma_zone_is_listed(widgets: Map<u64, WidgetModel>, order: Seq<u64>, k: int)
    requires
        0 <= k < order.len(),
        widgets[order[k]]@.relocated(),
    ensures
        ({
            let state = widgets[order[k]]@;
            zones_along(widgets, order).contains(
                ActiveZone::Relocated {
                    visible_at: state.current(),
                    forward_to: state.default_rect,
                },
            )
        }),
    decreases order.len(),
{
    let state = widgets[order[k]]@;
    let zone = ActiveZone::Relocated {
        visible_at: state.current(),
        forward_to: state.default_rect,
    };
    let zones = zones_along(widgets, order);
    let earlier = zones_along(widgets, order.drop_last());
    let own = widget_zones(widgets[order.last()]@);
    assert(zones == earlier + own);
    if k == order.len() - 1 {
        assert(own[1] == zone);
        assert(zones[earlier.len() as int + 1] == zone);
    } else {
        lemma_zone_is_listed(widgets, order.drop_last(), k);
        assert(order.drop_last()[k] == order[k]);
        let i = choose|i: int| 0 <= i < earlier.len() && earlier[i] == zone;
        assert(zones[i] == zone);
    }
}

proof fn lemma_listed_zone_forwards(zones: Seq<ActiveZone>, i: int, x: int, y: int)
    requires
        0 <= i < zones.len(),
        zones[i] matches ActiveZone::Relocated { visible_at, .. } && visible_at.covers(x, y),
    ensures
        click_target(zones, x, y) is Some,
    decreases zones.len(),
{
    if i > 0 {
        assert(zones.drop_first()[i - 1] == zones[i]);
        lemma_listed_zone_forwards(zones.drop_first(), i - 1, x, y);
    }
}

/// Nothing that was saved is lost: after loading, every saved widget is known,
/// with the model of the last row that was saved for it.
pub proof fn law_restore_keeps_every_widget(rows: Seq<(WidgetKey, WidgetModel)>, i: int)
    requires
        0 <= i < rows.len(),
        forall|j: int|
            i < j < rows.len() ==> fingerprint_of((#[trigger] rows[j]).0@) != fingerprint_of(
                rows[i].0@,
            ),
    ensures
        restored(rows).contains_key(fingerprint_of(rows[i].0@)),
        restored(rows)[fingerprint_of(rows[i].0@)] == rows[i].1,
    decreases rows.len(),
{
    if i < rows.len() - 1 {
        let front = rows.drop_last();
        assert(front[i] == rows[i]);
        assert forall|j: int| i < j < front.len() implies fingerprint_of((#[trigger] front[j]).0@)
            != fingerprint_of(front[i].0@) by {
            assert(front[j] == rows[j]);
        }
        law_restore_keeps_every_widget(front, i);
        assert(rows.last() == rows[rows.len() - 1]);
    }
}

/// Every widget whose active arm has an offset, in either coordinate, is masked
/// where the application draws it and shown, right above the mask, moved by that
/// offset; clicks there go back to where the application draws it.
pub proof fn law_moved_widget_is_masked_and_shown(
    widgets: Map<u64, WidgetModel>,
    order: Seq<u64>,
    fp: u64,
)
    requires
        lists_widgets(widgets, order),
        widgets.contains_key(fp),
        widgets[fp].active_arm < widgets[fp].arms@.len(),
        widgets[fp].arms@[widgets[fp].active_arm as int].offset != (0i32, 0i32),
        -0x8000_0000 <= widgets[fp].default_rect.x
            + widgets[fp].arms@[widgets[fp].active_arm as int].offset.0 <= 0x7fff_ffff,
        -0x8000_0000 <= widgets[fp].default_rect.y
            + widgets[fp].arms@[widgets[fp].active_arm as int].offset.1 <= 0x7fff_ffff,
    ensures
        ({
            let zones = zones_along(widgets, order);
            let home = widgets[fp].default_rect;
            let offset = widgets[fp].arms@[widgets[fp].active_arm as int].offset;
            exists|i: int|
                0 <= i && i + 1 < zones.len() && #[trigger] zones[i] == ActiveZone::Mask(home)
                    && zones[i + 1] == (ActiveZone::Relocated {
                    visible_at: Rect {
                        x: (home.x + offset.0) as i32,
                        y: (home.y + offset.1) as i32,
                        w: home.w,
                        h: home.h,
                    },
                    forward_to: home,
                })
        }),
{
    assert(order.to_set().contains(fp));
    let k = choose|k: int| 0 <= k < order.len() && order[k] == fp;
    crate::bandit::law_rendering_follows_offset(widgets[fp]@);
    let i = lemma_zone_pair(widgets, order, k);
    let zones = zones_along(widgets, order);
    assert(zones[i] == ActiveZone::Mask(widgets[fp].default_rect));
}

proof fn lemma_zone_pair(widgets: Map<u64, WidgetModel>, order: Seq<u64>, k: int) -> (i: int)
    requires
        0 <= k < order.len(),
        widgets[order[k]]@.relocated(),
    ensures
        0 <= i,
        i + 1 < zones_along(widgets, order).len(),
        zones_along(widgets, order)[i] == ActiveZone::Mask(widgets[order[k]]@.default_rect),
        zones_along(widgets, order)[i + 1] == (ActiveZone::Relocated {
            visible_at: widgets[order[k]]@.current(),
            forward_to: widgets[order[k]]@.default_rect,
        }),
    decreases order.len(),
{
    let earlier = zones_along(widgets, order.drop_last());
    let own = widget_zones(widgets[order.last()]@);
    assert(zones_along(widgets, order) == earlier + own);
    if k == order.len() - 1 {
        assert(own.len() == 2);
        assert(zones_along(widgets, order)[earlier.len() as int] == own[0]);
        assert(zones_along(widgets, order)[earlier.len() as int + 1] == own[1]);
        earlier.len() as int
    } else {
        assert(order.drop_last()[k] == order[k]);
        let i = lemma_zone_pair(widgets, order.drop_last(), k);
        assert(zones_along(widgets, order)[i] == earlier[i]);
        assert(zones_along(widgets, order)[i + 1] == earlier[i + 1]);
        i
    }
}

/// Every zone belongs to a widget that has moved: it masks the widget's default
/// rectangle, or shows the widget moved by its active arm's offset.
pub proof fn law_zones_belong_to_moved_widgets(
    widgets: Map<u64, WidgetModel>,
    order: Seq<u64>,
    i: int,
)
    requires
        lists_widgets(widgets, order),
        can_render_all(widgets),
        0 <= i < zones_along(widgets, order).len(),
    ensures
        exists|fp: u64|
            #![trigger widgets.contains_key(fp)]
            {
                let zone = zones_along(widgets, order)[i];
                let home = widgets[fp].default_rect;
                let offset = widgets[fp].arms@[widgets[fp].active_arm as int].offset;
                &&& widgets.contains_key(fp)
                &&& offset != (0i32, 0i32)
                &&& zone == ActiveZone::Mask(home) || {
                    &&& zone is Relocated
                    &&& zone->forward_to == home
                    &&& zone->visible_at.x == home.x + offset.0
                    &&& zone->visible_at.y == home.y + offset.1
                    &&& zone->visible_at.w == home.w
                    &&& zone->visible_at.h == home.h
                }
            },
{
    let k = lemma_zone_owner(widgets, order, i);
    let fp = order[k];
    assert(order.to_set().contains(fp));
    assert(widgets.contains_key(fp));
    crate::bandit::law_rendering_follows_offset(widgets[fp]@);
}

proof fn lemma_zone_owner(widgets: Map<u64, WidgetModel>, order: Seq<u64>, i: int) -> (k: int)
    requires
        0 <= i < zones_along(widgets, order).len(),
    ensures
        0 <= k < order.len(),
        widgets[order[k]]@.relocated(),
        widget_zones(widgets[order[k]]@).contains(zones_along(widgets, order)[i]),
    decreases order.len(),
{
    let earlier = zones_along(widgets, order.drop_last());
    let own = widget_zones(widgets[order.last()]@);
    assert(zones_along(widgets, order) == earlier + own);
    if i >= earlier.len() {
        assert(own[i - earlier.len()] == zones_along(widgets, order)[i]);
        order.len() - 1
    } else {
        let k = lemma_zone_owner(widgets, order.drop_last(), i);
        assert(order.drop_last()[k] == order[k]);
        k
    }
}

/// A moved widget has two zones and no more; one that has not moved has none.
pub proof fn law_two_zones_per_moved_widget(widgets: Map<u64, WidgetModel>, order: Seq<u64>)
    requires
        lists_widgets(widgets, order),
        can_render_all(widgets),
    ensures
        zones_along(widgets, order).len() == 2 * order.filter(
            |fp: u64|
                widgets[fp].arms@[widgets[fp].active_arm as int].offset != (0i32, 0i32),
        ).len(),
{
    assert forall|k: int| 0 <= k < order.len() implies widgets[#[trigger] order[k]]@.can_render() by {
        assert(order.to_set().contains(order[k]));
        assert(widgets.contains_key(order[k]));
    }
    lemma_two_zones(widgets, order);
}

proof fn lemma_two_zones(widgets: Map<u64, WidgetModel>, order: Seq<u64>)
    requires
        forall|k: int| 0 <= k < order.len() ==> widgets[#[trigger] order[k]]@.can_render(),
    ensures
        zones_along(widgets, order).len() == 2 * order.filter(
            |fp: u64|
                widgets[fp].arms@[widgets[fp].active_arm as int].offset != (0i32, 0i32),
        ).len(),
    decreases order.len(),
{
    let moved = |fp: u64|
        widgets[fp].arms@[widgets[fp].active_arm as int].offset != (0i32, 0i32);
    reveal(Seq::filter);
    if order.len() > 0 {
        let front = order.drop_last();
        assert forall|k: int| 0 <= k < front.len() implies widgets[#[trigger] front[k]]@.can_render() by {
            assert(front[k] == order[k]);
        }
        lemma_two_zones(widgets, front);
        assert(widgets[order[order.len() - 1]]@.can_render());
        crate::bandit::law_rendering_follows_offset(widgets[order.last()]@);
    }
}

/// The list of widgets is complete and has no repetitions.
pub proof fn law_list_is_complete(widgets: Map<u64, WidgetModel>, order: Seq<u64>)
    requires
        lists_widgets(widgets, order),
    ensures
        forall|fp: u64| #[trigger] widgets.contains_key(fp) ==> order.contains(fp),
        forall|i: int| 0 <= i < order.len() ==> widgets.contains_key(#[trigger] order[i]),
        forall|i: int, j: int|
            0 <= i < j < order.len() ==> #[trigger] order[i] != #[trigger] order[j],
{
    assert forall|fp: u64| #[trigger] widgets.contains_key(fp) implies order.contains(fp) by {
        assert(order.to_set().contains(fp));
    }
    assert forall|i: int| 0 <= i < order.len() implies widgets.contains_key(#[trigger] order[i]) by {
        assert(order.to_set().contains(order[i]));
    }
}

/// Loading invents nothing: every widget that is known afterwards has a row, and
/// its model is that row's.
pub proof fn law_restore_invents_nothing(rows: Seq<(WidgetKey, WidgetModel)>, fp: u64)
    requires
        restored(rows).contains_key(fp),
    ensures
        exists|i: int|
            0 <= i < rows.len() && fingerprint_of((#[trigger] rows[i]).0@) == fp && rows[i].1
                == restored(rows)[fp],
    decreases rows.len(),
{
    if rows.len() > 0 {
        if fingerprint_of(rows.last().0@) == fp {
            assert(rows[rows.len() - 1].1 == restored(rows)[fp]);
        } else {
            let front = rows.drop_last();
            law_restore_invents_nothing(front, fp);
            let i = choose|i: int|
                0 <= i < front.len() && fingerprint_of((#[trigger] front[i]).0@) == fp
                    && front[i].1 == restored(front)[fp];
            assert(rows[i] == front[i]);
        }
    }
}

/// The zones can be made as long as every widget has a valid active arm and its
/// place on screen has 32-bit coordinates.
pub proof fn law_representable_widgets_have_zones(widgets: Map<u64, WidgetModel>)
    requires
        forall|fp: u64| #[trigger]
            widgets.contains_key(fp) ==> {
                let widget = widgets[fp];
                let offset = widget.arms@[widget.active_arm as int].offset;
                &&& widget.active_arm < widget.arms@.len()
                &&& -0x8000_0000 <= widget.default_rect.x + offset.0 <= 0x7fff_ffff
                &&& -0x8000_0000 <= widget.default_rect.y + offset.1 <= 0x7fff_ffff
            },
    ensures
        can_render_all(widgets),
{
    assert forall|fp: u64| #[trigger] widgets.contains_key(fp) implies widgets[fp]@.can_render() by {
        crate::bandit::law_rendering_follows_offset(widgets[fp]@);
    }
}

/// The zones are updated about twice a second.
pub proof fn law_zones_follow_within_half_a_second()
    ensures
        SYNC_TICKS == 30,
        TICK_MS == 16,
        400 <= SYNC_TICKS * TICK_MS <= 500,
{
}

} // verus!
