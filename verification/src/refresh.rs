//! Which widgets a pass of the refresh loop resolves.
//!
//! Sources that cost money, tokens or quota are passed over when no viewer is watching, and
//! no widget is refreshed more often than its source allows.

use vstd::prelude::*;

use crate::clock::{
    datable, now_instant, parse_rfc3339, rfc3339_instant, seconds_since, secs_between, Instant,
};
use crate::json::JsonView;
use crate::model::{law_interval_never_below_floor, Widget, WidgetView};
use crate::store::{
    law_refresh_keeps_the_definition, readable_widgets, refreshed, widget_views, DashboardStore,
    StoreView,
};

verus! {

/// The seconds between two passes of the refresh loop.
pub const TICK_SECS: u64 = 5;

/// When a widget was last refreshed, as far as that can be read.
pub open spec fn last_refresh(w: WidgetView) -> Option<Instant> {
    match w.last_refresh_at {
        Some(s) => rfc3339_instant(s),
        None => None,
    }
}

/// Whether an interval has passed since the last refresh; a widget that was never refreshed
/// is always due.
pub open spec fn due_since(interval: u64, last: Option<Instant>, now: Instant) -> bool {
    match last {
        Some(t) => secs_between(now, t) >= interval,
        None => true,
    }
}

/// Whether an interval has passed since the last refresh.
pub fn is_due_since(interval: u64, last: Option<Instant>, now: Instant) -> (r: bool)
    requires
        datable(now),
        last matches Some(t) ==> datable(t),
    ensures
        r == due_since(interval, last, now),
{
    match last {
        Some(t) => {
            let elapsed: i64 = seconds_since(now, t);
            elapsed >= 0 && elapsed as u64 >= interval
        },
        None => true,
    }
}

/// Whether a widget is due.
pub open spec fn due(w: WidgetView, now: Instant) -> bool {
    due_since(w.effective_interval(), last_refresh(w), now)
}

/// Whether a widget's refresh interval has passed since its last refresh.
pub fn is_due(widget: &Widget, now: Instant) -> (r: bool)
    requires
        datable(now),
    ensures
        r == due(widget@, now),
{
    let last = match &widget.last_refresh_at {
        Some(s) => parse_rfc3339(s.as_str()),
        None => None,
    };
    is_due_since(widget.effective_interval_secs(), last, now)
}

/// Whether a pass resolves a widget: it has data that changes, it costs nothing or someone
/// watches, and it is due.
pub open spec fn refreshes(w: WidgetView, has_viewer: bool, now: Instant) -> bool {
    &&& w.source.refreshable()
    &&& !w.source.expensive() || has_viewer
    &&& due(w, now)
}

/// The widgets that a pass resolves, in their order.
pub open spec fn refreshing(list: Seq<WidgetView>, has_viewer: bool, now: Instant) -> Seq<WidgetView>
    decreases list.len(),
{
    if list.len() == 0 {
        Seq::empty()
    } else {
        let before = refreshing(list.drop_last(), has_viewer, now);
        if refreshes(list.last(), has_viewer, now) {
            before.push(list.last())
        } else {
            before
        }
    }
}

/// The widgets of a store that a pass at a moment resolves.
pub open spec fn pass_over(s: StoreView, now: Instant) -> Seq<WidgetView> {
    refreshing(readable_widgets(s.widgets), s.viewers > 0, now)
}

/// The widgets of a store that a pass at the given moment resolves.
pub fn due_widgets_at(store: &DashboardStore, now: Instant) -> (r: Vec<Widget>)
    requires
        datable(now),
    ensures
        widget_views(r@) == pass_over(store@, now),
{
    let has_viewer = store.viewer_count() > 0;
    let all = store.list_all_widgets();
    let ghost list = widget_views(all@);
    let mut out: Vec<Widget> = Vec::new();
    assert(list.take(0) =~= Seq::<WidgetView>::empty());
    assert(widget_views(out@) =~= Seq::<WidgetView>::empty());
    for i in 0..all.len()
        invariant
            datable(now),
            list == widget_views(all@),
            widget_views(out@) == refreshing(list.take(i as int), has_viewer, now),
    {
        assert(list.take(i + 1).drop_last() =~= list.take(i as int));
        let w = &all[i];
        assert(list.take(i + 1).last() == w@);
        if w.source.is_refreshable() && (has_viewer || !w.source.is_expensive())
            && is_due(w, now) {
            let ghost before = widget_views(out@);
            out.push(w.clone());
            assert(widget_views(out@) =~= before.push(w@));
        }
    }
    assert(list.take(list.len() as int) =~= list);
    out
}

/// The widgets of a store that a pass now resolves.
pub fn due_widgets(store: &DashboardStore) -> (r: Vec<Widget>)
    ensures
        exists|now: Instant| datable(now) && widget_views(r@) == #[trigger] pass_over(store@, now),
{
    let now = now_instant();
    due_widgets_at(store, now)
}

/// The money guard: without a viewer no pass resolves a source that costs anything.
pub proof fn law_no_viewer_no_cost(list: Seq<WidgetView>, now: Instant, i: int)
    requires
        0 <= i < refreshing(list, false, now).len(),
    ensures
        !refreshing(list, false, now)[i].source.expensive(),
        refreshing(list, false, now)[i].source.refreshable(),
    decreases list.len(),
{
    if list.len() > 0 {
        let before = refreshing(list.drop_last(), false, now);
        if i < before.len() {
            law_no_viewer_no_cost(list.drop_last(), now, i);
        }
    }
}

/// A subscriber that is no viewer does not defeat the money guard: a pass resolves what it
/// would resolve without it.
pub proof fn law_subscribers_cost_nothing(s: StoreView, now: Instant)
    ensures
        pass_over(s.subscribed(), now) == pass_over(s, now),
{
}

/// A pass resolves every widget that it should, and no other.
pub proof fn law_pass_resolves_the_right_widgets(
    list: Seq<WidgetView>,
    has_viewer: bool,
    now: Instant,
    w: WidgetView,
)
    ensures
        refreshing(list, has_viewer, now).contains(w) <==> list.contains(w) && refreshes(
            w,
            has_viewer,
            now,
        ),
    decreases list.len(),
{
    let chosen = refreshing(list, has_viewer, now);
    if list.len() > 0 {
        let rest = list.drop_last();
        let before = refreshing(rest, has_viewer, now);
        law_pass_resolves_the_right_widgets(rest, has_viewer, now, w);
        assert(rest.push(list.last()) =~= list);
        if rest.contains(w) {
            let i = choose|i: int| 0 <= i < rest.len() && rest[i] == w;
            assert(list[i] == w);
        }
        if list.contains(w) && !rest.contains(w) {
            let i = choose|i: int| 0 <= i < list.len() && list[i] == w;
            if i < rest.len() {
                assert(rest[i] == w);
            }
            assert(w == list.last());
        }
        if before.contains(w) {
            let i = choose|i: int| 0 <= i < before.len() && before[i] == w;
            assert(chosen[i] == w);
        }
        if refreshes(list.last(), has_viewer, now) {
            assert(chosen[chosen.len() - 1] == list.last());
            assert(list[list.len() - 1] == list.last());
            if chosen.contains(w) && !before.contains(w) {
                let i = choose|i: int| 0 <= i < chosen.len() && chosen[i] == w;
                if i < before.len() {
                    assert(before[i] == w);
                }
            }
        }
    }
}

/// A widget that was never refreshed, or whose last refresh cannot be read, is always due.
pub proof fn law_never_refreshed_is_due(w: WidgetView, now: Instant)
    requires
        last_refresh(w) is None,
    ensures
        due(w, now),
{
}

/// A widget that is due was never refreshed, or the shortest interval that its source allows
/// has passed.
pub proof fn law_due_respects_the_floor(w: WidgetView, now: Instant)
    requires
        last_refresh(w) matches Some(t) && due(w, now),
    ensures
        secs_between(now, last_refresh(w).unwrap()) >= w.source.min_interval(),
{
    law_interval_never_below_floor(w);
}

/// A widget whose refresh was cached, whether it went well or not, is not due again before the
/// shortest interval that its source allows has passed since.
pub proof fn law_refreshed_widget_waits(
    w: WidgetView,
    outcome: Result<JsonView, Seq<char>>,
    at: Seq<char>,
    then: Instant,
    now: Instant,
)
    requires
        rfc3339_instant(at) == Some(then),
        secs_between(now, then) < w.source.min_interval(),
    ensures
        !due(refreshed(w, outcome, at), now),
{
    law_refresh_keeps_the_definition(w, outcome, at);
    law_interval_never_below_floor(refreshed(w, outcome, at));
}

} // verus!
