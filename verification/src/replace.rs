//! Replacing the whole set of a dashboard's widgets.

use vstd::prelude::*;

use crate::clock::{is_generated, is_stamp, new_widget_id, now};
use crate::model::{Widget, WidgetView};
use crate::sources::{source_fault, validate_widget_source};
use crate::store::{
    belongs_elsewhere, law_list_holds_own_widgets, readable_on, source_holds, sources_hold,
    widget_views, DashboardStore, StoreView,
};
use crate::table::{
    by_creation, found, law_put_is_found, law_put_leaves_others, law_removal_keeps_keys_unique,
    law_removal_leaves_others, law_removed_is_not_found, lemma_place_from, unique,
};
use crate::text::{blank, decimal, decimal_of, is_blank, same_text, texts};

verus! {

/// The items of a batch of widgets: each a widget, or why it could not be read.
pub open spec fn item_views(items: Seq<Result<Widget, String>>) -> Seq<
    Result<WidgetView, Seq<char>>,
> {
    Seq::new(
        items.len(),
        |i: int|
            match items[i] {
                Ok(w) => Ok(w@),
                Err(e) => Err(e@),
            },
    )
}

/// A widget of a batch bound to its dashboard: a blank id is replaced by a fresh one, and
/// what was cached is dropped.
pub open spec fn bound(w: WidgetView, fresh: Seq<char>, dashboard_id: Seq<char>) -> WidgetView {
    WidgetView {
        id: if blank(w.id) {
            fresh
        } else {
            w.id
        },
        dashboard_id,
        last_value: None,
        last_refresh_at: None,
        last_error: None,
        ..w
    }
}

/// The widgets of a batch, each bound to the dashboard, or what is wrong with the first bad
/// one.
pub open spec fn prepared(
    items: Seq<Result<WidgetView, Seq<char>>>,
    fresh: Seq<Seq<char>>,
    dashboard_id: Seq<char>,
) -> Result<Seq<WidgetView>, Seq<char>>
    decreases items.len(),
{
    if items.len() == 0 {
        Ok(Seq::empty())
    } else {
        let i = (items.len() - 1) as nat;
        match prepared(items.drop_last(), fresh, dashboard_id) {
            Err(e) => Err(e),
            Ok(list) => match items.last() {
                Err(e) => Err("widget #"@ + decimal_of(i) + " is invalid: "@ + e),
                Ok(w) => match source_fault(w.source) {
                    Some(e) => Err("widget #"@ + decimal_of(i) + ": "@ + e),
                    None => Ok(list.push(bound(w, fresh[i as int], dashboard_id))),
                },
            },
        }
    }
}

/// Why the first widget of a list that belongs to another dashboard cannot be written.
pub open spec fn misplaced(s: StoreView, list: Seq<WidgetView>) -> Option<Seq<char>>
    decreases list.len(),
{
    if list.len() == 0 {
        None
    } else {
        match misplaced(s, list.drop_last()) {
            Some(e) => Some(e),
            None => match s.owner(list.last()) {
                Some(d) => Some(belongs_elsewhere(list.last().id, d)),
                None => None,
            },
        }
    }
}

/// The store without some widgets.
pub open spec fn without_all(s: StoreView, list: Seq<WidgetView>) -> StoreView
    decreases list.len(),
{
    if list.len() == 0 {
        s
    } else {
        without_all(s, list.drop_last()).without_widget(list.last().id)
    }
}

/// The store with some widgets written, each at its time.
pub open spec fn with_all(s: StoreView, list: Seq<WidgetView>, times: Seq<Seq<char>>) -> StoreView
    decreases list.len(),
{
    if list.len() == 0 {
        s
    } else {
        with_all(s, list.drop_last(), times).with_widget(list.last(), times[list.len() - 1])
    }
}

/// The store with a dashboard's widgets replaced by others.
pub open spec fn with_replaced(
    s: StoreView,
    dashboard_id: Seq<char>,
    list: Seq<WidgetView>,
    times: Seq<Seq<char>>,
) -> StoreView {
    with_all(without_all(s, readable_on(by_creation(s.widgets), dashboard_id)), list, times)
}

fn prepare(items: &Vec<Result<Widget, String>>, fresh: &Vec<String>, dashboard_id: &str) -> (r:
    Result<Vec<Widget>, String>)
    requires
        fresh@.len() == items@.len(),
    ensures
        match prepared(item_views(items@), texts(fresh@), dashboard_id@) {
            Ok(list) => r matches Ok(v) && widget_views(v@) == list,
            Err(e) => r matches Err(f) && f@ == e,
        },
{
    let ghost all = item_views(items@);
    let ghost ids = texts(fresh@);
    let mut out: Vec<Widget> = Vec::new();
    assert(all.take(0) =~= Seq::<Result<WidgetView, Seq<char>>>::empty());
    assert(widget_views(out@) =~= Seq::<WidgetView>::empty());
    for i in 0..items.len()
        invariant
            fresh@.len() == items@.len(),
            all == item_views(items@),
            ids == texts(fresh@),
            prepared(all.take(i as int), ids, dashboard_id@) == Ok::<Seq<WidgetView>, Seq<char>>(
                widget_views(out@),
            ),
    {
        let ghost part = all.take(i + 1);
        assert(part.drop_last() =~= all.take(i as int));
        match &items[i] {
            Err(e) => {
                let mut text = "widget #".to_owned();
                text.append(decimal(i as u64).as_str());
                text.append(" is invalid: ");
                text.append(e.as_str());
                proof {
                    lemma_first_fault(all, ids, dashboard_id@, i + 1);
                }
                return Err(text);
            },
            Ok(w) => {
                if let Err(e) = validate_widget_source(&w.source) {
                    let mut text = "widget #".to_owned();
                    text.append(decimal(i as u64).as_str());
                    text.append(": ");
                    text.append(e.as_str());
                    proof {
                        lemma_first_fault(all, ids, dashboard_id@, i + 1);
                    }
                    return Err(text);
                }
                let mut widget = w.clone();
                if is_blank(widget.id.as_str()) {
                    widget.id = fresh[i].clone();
                }
                widget.dashboard_id = dashboard_id.to_owned();
                widget.last_value = None;
                widget.last_refresh_at = None;
                widget.last_error = None;
                assert(widget@ == bound(w@, ids[i as int], dashboard_id@));
                let ghost before = widget_views(out@);
                let ghost b = widget@;
                out.push(widget);
                assert(widget_views(out@) =~= before.push(b));
            },
        }
    }
    assert(all.take(all.len() as int) =~= all);
    Ok(out)
}

proof fn lemma_first_fault(
    items: Seq<Result<WidgetView, Seq<char>>>,
    fresh: Seq<Seq<char>>,
    d: Seq<char>,
    k: int,
)
    requires
        0 <= k <= items.len(),
        prepared(items.take(k), fresh, d) is Err,
    ensures
        prepared(items, fresh, d) == prepared(items.take(k), fresh, d),
    decreases items.len(),
{
    if k == items.len() {
        assert(items.take(k) =~= items);
    } else {
        assert(items.drop_last().take(k) =~= items.take(k));
        lemma_first_fault(items.drop_last(), fresh, d, k);
    }
}

proof fn lemma_bound_to(
    items: Seq<Result<WidgetView, Seq<char>>>,
    fresh: Seq<Seq<char>>,
    d: Seq<char>,
)
    ensures
        prepared(items, fresh, d) matches Ok(list) ==> list.len() == items.len() && forall|i: int|
            0 <= i < list.len() ==> (#[trigger] list[i]).dashboard_id == d,
    decreases items.len(),
{
    if items.len() > 0 {
        lemma_bound_to(items.drop_last(), fresh, d);
    }
}

proof fn lemma_none_misplaced(s: StoreView, list: Seq<WidgetView>)
    ensures
        misplaced(s, list) is None ==> forall|i: int|
            0 <= i < list.len() ==> s.owner(#[trigger] list[i]) is None,
    decreases list.len(),
{
    if list.len() > 0 {
        lemma_none_misplaced(s, list.drop_last());
        if misplaced(s, list) is None {
            assert forall|i: int| 0 <= i < list.len() implies s.owner(#[trigger] list[i]) is None by {
                if i < list.len() - 1 {
                    assert(list.drop_last()[i] == list[i]);
                }
            }
        }
    }
}

proof fn lemma_first_misplaced(s: StoreView, list: Seq<WidgetView>, k: int)
    requires
        0 <= k <= list.len(),
        misplaced(s, list.take(k)) is Some,
    ensures
        misplaced(s, list) == misplaced(s, list.take(k)),
    decreases list.len(),
{
    if k == list.len() {
        assert(list.take(k) =~= list);
    } else {
        assert(list.drop_last().take(k) =~= list.take(k));
        lemma_first_misplaced(s, list.drop_last(), k);
    }
}

proof fn lemma_owner_after_removal(s: StoreView, id: Seq<char>, w: WidgetView)
    requires
        s.wf(),
        s.owner(w) is None,
    ensures
        s.without_widget(id).owner(w) is None,
{
    if w.id == id {
        law_removed_is_not_found(s.widgets, id);
    } else {
        law_removal_leaves_others(s.widgets, id, w.id);
    }
}

proof fn lemma_owner_after_write(s: StoreView, v: WidgetView, t: Seq<char>, w: WidgetView)
    requires
        v.dashboard_id == w.dashboard_id,
        s.owner(w) is None,
    ensures
        s.with_widget(v, t).owner(w) is None,
{
    if w.id == v.id {
        law_put_is_found(s.widgets, s.widget_row(v, t));
    } else {
        law_put_leaves_others(s.widgets, s.widget_row(v, t), w.id);
    }
}

/// What is answered to a request to replace a dashboard's widgets, and the store after it.
/// `items` is nothing when the request held no array.
pub open spec fn replaced(
    s: StoreView,
    dashboard_id: Seq<char>,
    items: Option<Seq<Result<WidgetView, Seq<char>>>>,
    fresh: Seq<Seq<char>>,
    times: Seq<Seq<char>>,
) -> (Result<nat, Seq<char>>, StoreView) {
    match items {
        None => (Err("`widgets` must be an array of widget objects"@), s),
        Some(list) => match prepared(list, fresh, dashboard_id) {
            Err(e) => (Err(e), s),
            Ok(widgets) => match misplaced(s, widgets) {
                Some(e) => (Err(e), s),
                None => (Ok(widgets.len()), with_replaced(s, dashboard_id, widgets, times)),
            },
        },
    }
}

/// The model of an optional batch.
pub open spec fn opt_items(batch: Option<Vec<Result<Widget, String>>>) -> Option<
    Seq<Result<WidgetView, Seq<char>>>,
> {
    match batch {
        Some(items) => Some(item_views(items@)),
        None => None,
    }
}

/// The number of widgets that were written, or why none was.
pub open spec fn count_of(r: Result<usize, String>) -> Result<nat, Seq<char>> {
    match r {
        Ok(n) => Ok(n as nat),
        Err(e) => Err(e@),
    }
}

fn clear_dashboard(store: &mut DashboardStore, dashboard_id: &str)
    requires
        old(store)@.wf(),
    ensures
        final(store)@ == without_all(
            old(store)@,
            readable_on(by_creation(old(store)@.widgets), dashboard_id@),
        ),
        final(store)@.wf(),
        forall|w: WidgetView| #[trigger]
            old(store)@.owner(w) is None ==> final(store)@.owner(w) is None,
{
    let ghost s = store@;
    let existing = store.list_widgets(dashboard_id);
    let ghost list = widget_views(existing@);
    assert(list.take(0) =~= Seq::<WidgetView>::empty());
    for i in 0..existing.len()
        invariant
            list == widget_views(existing@),
            store@ == without_all(s, list.take(i as int)),
            store@.wf(),
            forall|w: WidgetView| #[trigger] s.owner(w) is None ==> store@.owner(w) is None,
    {
        let ghost part = list.take(i + 1);
        assert(part.drop_last() =~= list.take(i as int));
        assert(part.last().id == existing@[i as int].id@);
        let ghost before = store@;
        store.delete_widget(existing[i].id.as_str());
        assert forall|w: WidgetView| #[trigger] s.owner(w) is None implies store@.owner(w) is None by {
            lemma_owner_after_removal(before, part.last().id, w);
        }
    }
    assert(list.take(list.len() as int) =~= list);
}

/// Replaces a dashboard's whole set of widgets, with the given ids for those that have none
/// and the given times of writing. A bad widget, or one whose id belongs to another
/// dashboard, rejects the whole batch and changes nothing.
pub fn replace_widgets_as(
    store: &mut DashboardStore,
    dashboard_id: &str,
    batch: &Option<Vec<Result<Widget, String>>>,
    fresh: &Vec<String>,
    times: &Vec<String>,
) -> (r: Result<usize, String>)
    requires
        old(store)@.wf(),
        batch matches Some(items) ==> fresh@.len() == items@.len() && times@.len() == items@.len(),
    ensures
        ({
            let (answer, after) = replaced(
                old(store)@,
                dashboard_id@,
                opt_items(*batch),
                texts(fresh@),
                texts(times@),
            );
            count_of(r) == answer && final(store)@ == after
        }),
        final(store)@.wf(),
{
    let items = match batch {
        Some(items) => items,
        None => return Err("`widgets` must be an array of widget objects".to_owned()),
    };
    let ghost s = store@;
    let ghost stamps = texts(times@);
    proof {
        lemma_bound_to(item_views(items@), texts(fresh@), dashboard_id@);
    }
    let widgets = match prepare(items, fresh, dashboard_id) {
        Ok(list) => list,
        Err(e) => return Err(e),
    };
    let ghost list = widget_views(widgets@);
    assert(list.take(0) =~= Seq::<WidgetView>::empty());
    for i in 0..widgets.len()
        invariant
            store@ == s,
            list == widget_views(widgets@),
            misplaced(s, list.take(i as int)) is None,
            prepared(item_views(items@), texts(fresh@), dashboard_id@) == Ok::<
                Seq<WidgetView>,
                Seq<char>,
            >(list),
            opt_items(*batch) == Some(item_views(items@)),
            s == old(store)@,
            s.wf(),
    {
        let ghost part = list.take(i + 1);
        assert(part.drop_last() =~= list.take(i as int));
        assert(part.last() == widgets@[i as int]@);
        if let Some(row) = store.widgets.get(widgets[i].id.as_str()) {
            if !same_text(row.dashboard_id.as_str(), widgets[i].dashboard_id.as_str()) {
                let mut text = "widget '".to_owned();
                text.append(widgets[i].id.as_str());
                text.append("' already belongs to dashboard '");
                text.append(row.dashboard_id.as_str());
                text.append("'");
                proof {
                    lemma_first_misplaced(s, list, i + 1);
                }
                return Err(text);
            }
        }
    }
    assert(list.take(list.len() as int) =~= list);
    proof {
        lemma_none_misplaced(s, list);
    }
    clear_dashboard(store, dashboard_id);
    let ghost cleared = store@;
    assert forall|j: int| 0 <= j < list.len() implies store@.owner(#[trigger] list[j]) is None by {
        assert(s.owner(list[j]) is None);
    }
    for i in 0..widgets.len()
        invariant
            list == widget_views(widgets@),
            stamps == texts(times@),
            times@.len() == widgets@.len(),
            store@ == with_all(cleared, list.take(i as int), stamps),
            store@.wf(),
            forall|j: int| 0 <= j < list.len() ==> (#[trigger] list[j]).dashboard_id
                == dashboard_id@,
            forall|j: int| 0 <= j < list.len() ==> store@.owner(#[trigger] list[j]) is None,
    {
        let ghost part = list.take(i + 1);
        assert(part.drop_last() =~= list.take(i as int));
        assert(part.last() == widgets@[i as int]@);
        assert(store@.owner(list[i as int]) is None);
        let ghost before = store@;
        let _ = store.upsert_widget_at(&widgets[i], times[i].as_str());
        assert forall|j: int| 0 <= j < list.len() implies store@.owner(#[trigger] list[j]) is None by {
            lemma_owner_after_write(before, list[i as int], stamps[i as int], list[j]);
        }
    }
    assert(list.take(list.len() as int) =~= list);
    Ok(widgets.len())
}

/// Whether there are a generated id and a time stamp for each item of a batch.
pub open spec fn batch_marks(
    items: Option<Seq<Result<WidgetView, Seq<char>>>>,
    fresh: Seq<Seq<char>>,
    times: Seq<Seq<char>>,
) -> bool {
    let count = match items {
        Some(list) => list.len(),
        None => 0,
    };
    &&& fresh.len() == count
    &&& times.len() == count
    &&& forall|i: int| 0 <= i < count ==> is_generated(#[trigger] fresh[i], "wgt_"@)
    &&& forall|i: int| 0 <= i < count ==> is_stamp(#[trigger] times[i])
}

/// An id and a time stamp for each item of a batch.
pub fn fresh_ids(batch: &Option<Vec<Result<Widget, String>>>) -> (r: (Vec<String>, Vec<String>))
    ensures
        batch_marks(opt_items(*batch), texts(r.0@), texts(r.1@)),
{
    let count: usize = match batch {
        Some(items) => items.len(),
        None => 0,
    };
    let mut fresh: Vec<String> = Vec::new();
    let mut times: Vec<String> = Vec::new();
    for i in 0..count
        invariant
            fresh@.len() == i,
            times@.len() == i,
            forall|j: int| 0 <= j < fresh@.len() ==> is_generated((#[trigger] fresh@[j])@, "wgt_"@),
            forall|j: int| 0 <= j < times@.len() ==> is_stamp((#[trigger] times@[j])@),
    {
        fresh.push(new_widget_id());
        times.push(now());
    }
    let ghost ids = texts(fresh@);
    let ghost stamps = texts(times@);
    assert forall|i: int| 0 <= i < ids.len() implies is_generated(#[trigger] ids[i], "wgt_"@) by {
        assert(ids[i] == fresh@[i]@);
    }
    assert forall|i: int| 0 <= i < stamps.len() implies is_stamp(#[trigger] stamps[i]) by {
        assert(stamps[i] == times@[i]@);
    }
    (fresh, times)
}

/// Replaces a dashboard's whole set of widgets now, with fresh ids for those that have none.
/// A bad widget, or one whose id belongs to another dashboard, rejects the whole batch and
/// changes nothing.
pub fn replace_widgets(
    store: &mut DashboardStore,
    dashboard_id: &str,
    batch: &Option<Vec<Result<Widget, String>>>,
) -> (r: Result<usize, String>)
    requires
        old(store)@.wf(),
    ensures
        exists|fresh: Seq<Seq<char>>, times: Seq<Seq<char>>|
            {
                &&& batch_marks(opt_items(*batch), fresh, times)
                &&& (count_of(r), final(store)@) == #[trigger] replaced(
                    old(store)@,
                    dashboard_id@,
                    opt_items(*batch),
                    fresh,
                    times,
                )
            },
        final(store)@.wf(),
{
    let (fresh, times) = fresh_ids(batch);
    replace_widgets_as(store, dashboard_id, batch, &fresh, &times)
}

// ---- laws ----------------------------------------------------------------

/// A batch is applied as a whole or not at all: when it is rejected, the store is as it was.
pub proof fn law_rejected_batch_changes_nothing(
    s: StoreView,
    dashboard_id: Seq<char>,
    items: Option<Seq<Result<WidgetView, Seq<char>>>>,
    fresh: Seq<Seq<char>>,
    times: Seq<Seq<char>>,
)
    ensures
        replaced(s, dashboard_id, items, fresh, times).0 is Err ==> replaced(
            s,
            dashboard_id,
            items,
            fresh,
            times,
        ).1 == s,
{
}

proof fn lemma_prepared_item(
    items: Seq<Result<WidgetView, Seq<char>>>,
    fresh: Seq<Seq<char>>,
    d: Seq<char>,
    i: int,
)
    requires
        0 <= i < items.len(),
        prepared(items, fresh, d) is Ok,
    ensures
        items[i] matches Ok(w) && prepared(items, fresh, d)->Ok_0[i] == bound(w, fresh[i], d)
            && source_fault(w.source) is None,
    decreases items.len(),
{
    let rest = items.drop_last();
    lemma_bound_to(rest, fresh, d);
    if i < rest.len() {
        lemma_prepared_item(rest, fresh, d, i);
        assert(rest[i] == items[i]);
        assert(prepared(items, fresh, d)->Ok_0[i] == prepared(rest, fresh, d)->Ok_0[i]);
    }
}

/// No accepted batch holds a source that may not be written, or a cached value: whatever was
/// cached is dropped, and every widget is bound to the dashboard.
pub proof fn law_accepted_widgets_are_bound(
    items: Seq<Result<WidgetView, Seq<char>>>,
    fresh: Seq<Seq<char>>,
    d: Seq<char>,
    i: int,
)
    requires
        0 <= i < items.len(),
        prepared(items, fresh, d) is Ok,
    ensures
        ({
            let w = prepared(items, fresh, d)->Ok_0[i];
            &&& w.dashboard_id == d
            &&& w.last_value is None && w.last_refresh_at is None && w.last_error is None
            &&& source_fault(w.source) is None
            &&& items[i] matches Ok(given) && w.source == given.source && w.kind == given.kind
                && w.title == given.title && w.config == given.config && w.layout == given.layout
                && w.canvas == given.canvas && w.refresh_interval == given.refresh_interval
        }),
{
    lemma_prepared_item(items, fresh, d, i);
}

/// Whether a list of widgets holds an id.
pub open spec fn holds_id(list: Seq<WidgetView>, id: Seq<char>) -> bool {
    exists|j: int| 0 <= j < list.len() && (#[trigger] list[j]).id == id
}

proof fn lemma_without_all_found(s: StoreView, list: Seq<WidgetView>, id: Seq<char>)
    requires
        unique(s.widgets),
    ensures
        unique(without_all(s, list).widgets),
        found(without_all(s, list).widgets, id) == if holds_id(list, id) {
            None
        } else {
            found(s.widgets, id)
        },
    decreases list.len(),
{
    if list.len() > 0 {
        let rest = list.drop_last();
        let before = without_all(s, rest);
        let gone = list.last().id;
        lemma_without_all_found(s, rest, id);
        law_removal_keeps_keys_unique(before.widgets, gone);
        law_removed_is_not_found(before.widgets, gone);
        if holds_id(rest, id) {
            let j = choose|j: int| 0 <= j < rest.len() && (#[trigger] rest[j]).id == id;
            assert(list[j].id == id);
        }
        if gone == id {
            assert(list[list.len() - 1].id == id);
        } else {
            law_removal_leaves_others(before.widgets, gone, id);
            if holds_id(list, id) {
                let j = choose|j: int| 0 <= j < list.len() && (#[trigger] list[j]).id == id;
                assert(rest[j].id == id);
            }
        }
    }
}

proof fn lemma_with_all_found(
    s: StoreView,
    list: Seq<WidgetView>,
    times: Seq<Seq<char>>,
    id: Seq<char>,
)
    ensures
        if holds_id(list, id) {
            found(with_all(s, list, times).widgets, id) matches Some(row) && exists|k: int|
                0 <= k < list.len() && (#[trigger] list[k]).id == id && row.body == Some(list[k])
                    && row.dashboard_id == list[k].dashboard_id && forall|j: int|
                    k < j < list.len() ==> (#[trigger] list[j]).id != id
        } else {
            found(with_all(s, list, times).widgets, id) == found(s.widgets, id)
        },
    decreases list.len(),
{
    if list.len() > 0 {
        let rest = list.drop_last();
        let before = with_all(s, rest, times);
        let w = list.last();
        let row = before.widget_row(w, times[list.len() - 1]);
        lemma_with_all_found(s, rest, times, id);
        if w.id == id {
            law_put_is_found(before.widgets, row);
            assert(list[list.len() - 1].id == id);
        } else {
            law_put_leaves_others(before.widgets, row, id);
            if holds_id(rest, id) {
                let found_row = found(before.widgets, id).unwrap();
                let k = choose|k: int|
                    0 <= k < rest.len() && (#[trigger] rest[k]).id == id && found_row.body == Some(
                        rest[k],
                    ) && found_row.dashboard_id == rest[k].dashboard_id && forall|j: int|
                        k < j < rest.len() ==> (#[trigger] rest[j]).id != id;
                assert(list[k] == rest[k]);
                assert forall|j: int| k < j < list.len() implies (#[trigger] list[j]).id != id by {
                    if j < rest.len() {
                        assert(rest[j].id != id);
                    }
                }
            } else if holds_id(list, id) {
                let j = choose|j: int| 0 <= j < list.len() && (#[trigger] list[j]).id == id;
                assert(rest[j].id == id);
            }
        }
    }
}

/// A bad source never reaches the store: as long as no stored widget has a source that may
/// not be written, replacing a dashboard's widgets makes none.
pub proof fn law_batches_bring_no_bad_source(
    s: StoreView,
    d: Seq<char>,
    items: Option<Seq<Result<WidgetView, Seq<char>>>>,
    fresh: Seq<Seq<char>>,
    times: Seq<Seq<char>>,
)
    requires
        s.wf(),
        sources_hold(s),
    ensures
        sources_hold(replaced(s, d, items, fresh, times).1),
{
    let (answer, after) = replaced(s, d, items, fresh, times);
    if answer is Ok {
        let batch = items.unwrap();
        let list = prepared(batch, fresh, d)->Ok_0;
        let existing = readable_on(by_creation(s.widgets), d);
        lemma_bound_to(batch, fresh, d);
        assert forall|id: Seq<char>| source_holds(after, id) by {
            assert(source_holds(s, id));
            lemma_without_all_found(s, existing, id);
            lemma_with_all_found(without_all(s, existing), list, times, id);
            if holds_id(list, id) {
                let row = found(after.widgets, id).unwrap();
                let k = choose|k: int|
                    0 <= k < list.len() && (#[trigger] list[k]).id == id && row.body == Some(list[k])
                        && row.dashboard_id == list[k].dashboard_id && forall|j: int|
                        k < j < list.len() ==> (#[trigger] list[j]).id != id;
                lemma_prepared_item(batch, fresh, d, k);
            }
        }
    }
}

/// After a batch was accepted, the dashboard reads as the batch and nothing else: every id of
/// the batch reads as its last widget of that id, no other id reads on the dashboard, and
/// what other dashboards hold is as it was.
pub proof fn law_batch_becomes_the_dashboard(
    s: StoreView,
    d: Seq<char>,
    list: Seq<WidgetView>,
    times: Seq<Seq<char>>,
    id: Seq<char>,
)
    requires
        s.wf(),
        misplaced(s, list) is None,
        forall|i: int| 0 <= i < list.len() ==> (#[trigger] list[i]).dashboard_id == d,
    ensures
        ({
            let after = with_replaced(s, d, list, times);
            &&& holds_id(list, id) ==> exists|k: int|
                0 <= k < list.len() && (#[trigger] list[k]).id == id && after.widget_on(d, id) == Ok::<
                    Option<WidgetView>,
                    Seq<char>,
                >(Some(list[k])) && forall|j: int|
                    k < j < list.len() ==> (#[trigger] list[j]).id != id
            &&& !holds_id(list, id) ==> !(after.widget_on(d, id) matches Ok(Some(_)))
            &&& (found(s.widgets, id) matches Some(row) && row.dashboard_id != d) ==> found(
                after.widgets,
                id,
            ) == found(s.widgets, id)
        }),
{
    let existing = readable_on(by_creation(s.widgets), d);
    let cleared = without_all(s, existing);
    let after = with_replaced(s, d, list, times);
    lemma_without_all_found(s, existing, id);
    lemma_with_all_found(cleared, list, times, id);
    lemma_none_misplaced(s, list);
    lemma_place_from(s.widgets, id, 0);
    match found(s.widgets, id) {
        Some(row) => {
            match row.body {
                Some(w) => {
                    law_list_holds_own_widgets(s, row.dashboard_id, w);
                    if row.dashboard_id == d {
                        let j = choose|j: int| 0 <= j < existing.len() && existing[j] == w;
                        assert(existing[j].id == id);
                    }
                },
                None => {},
            }
            if row.dashboard_id != d {
                if holds_id(existing, id) {
                    let j = choose|j: int| 0 <= j < existing.len() && (#[trigger] existing[j]).id == id;
                    law_list_holds_own_widgets(s, d, existing[j]);
                    assert(existing.contains(existing[j]));
                }
                if holds_id(list, id) {
                    let j = choose|j: int| 0 <= j < list.len() && (#[trigger] list[j]).id == id;
                    assert(s.owner(list[j]) is None);
                }
            }
        },
        None => {},
    }
}

} // verus!
