//! Replacing the whole set of a dashboard's widgets.

use vstd::prelude::*;

use crate::model::WidgetView;
use crate::replace::{
    holds_id, law_batch_becomes_the_dashboard, misplaced, prepared, replaced, with_all,
    with_replaced, without_all,
};
use crate::sources::source_fault;
use crate::store::{readable_on, StoreView};
use crate::table::{by_creation, found, law_put_is_found, law_put_leaves_others};
use crate::text::{blank, decimal_of};

verus! {

/// The id that a widget of a batch is written under: its own, or the fresh one when that is
/// blank.
pub open spec fn id_in_batch(given: WidgetView, fresh: Seq<char>) -> Seq<char> {
    if blank(given.id) {
        fresh
    } else {
        given.id
    }
}

/// Whether a widget is the given one on a dashboard, with nothing cached.
pub open spec fn same_definition(w: WidgetView, given: WidgetView, d: Seq<char>) -> bool {
    &&& w.dashboard_id == d
    &&& w.kind == given.kind
    &&& w.title == given.title
    &&& w.config == given.config
    &&& w.source == given.source
    &&& w.refresh_interval == given.refresh_interval
    &&& w.layout == given.layout
    &&& w.canvas == given.canvas
    &&& w.last_value is None
    &&& w.last_refresh_at is None
    &&& w.last_error is None
}

/// Whether an item of a batch can be written: it was read, and its source may be written.
pub open spec fn good_item(item: Result<WidgetView, Seq<char>>) -> bool {
    item matches Ok(w) && source_fault(w.source) is None
}

proof fn lemma_prepared(
    items: Seq<Result<WidgetView, Seq<char>>>,
    fresh: Seq<Seq<char>>,
    d: Seq<char>,
)
    ensures
        prepared(items, fresh, d) matches Ok(list) ==> list.len() == items.len() && forall|i: int|
            0 <= i < items.len() ==> {
                &&& good_item(#[trigger] items[i])
                &&& list[i].id == id_in_batch(items[i]->Ok_0, fresh[i])
                &&& same_definition(list[i], items[i]->Ok_0, d)
            },
        (forall|i: int| 0 <= i < items.len() ==> good_item(#[trigger] items[i])) ==> prepared(
            items,
            fresh,
            d,
        ) is Ok,
    decreases items.len(),
{
    if items.len() > 0 {
        let rest = items.drop_last();
        lemma_prepared(rest, fresh, d);
        if let Ok(list) = prepared(items, fresh, d) {
            let before = prepared(rest, fresh, d)->Ok_0;
            assert forall|i: int| 0 <= i < items.len() implies {
                &&& good_item(#[trigger] items[i])
                &&& list[i].id == id_in_batch(items[i]->Ok_0, fresh[i])
                &&& same_definition(list[i], items[i]->Ok_0, d)
            } by {
                if i < rest.len() {
                    assert(rest[i] == items[i]);
                    assert(list[i] == before[i]);
                }
            }
        }
        if forall|i: int| 0 <= i < items.len() ==> good_item(#[trigger] items[i]) {
            assert forall|i: int| 0 <= i < rest.len() implies good_item(#[trigger] rest[i]) by {
                assert(rest[i] == items[i]);
            }
            assert(good_item(items[items.len() - 1]));
        }
    }
}

/// An accepted batch was good from end to end, and as many widgets are reported as it held.
pub proof fn law_accepted_batches_are_counted(
    s: StoreView,
    d: Seq<char>,
    items: Option<Seq<Result<WidgetView, Seq<char>>>>,
    fresh: Seq<Seq<char>>,
    times: Seq<Seq<char>>,
)
    requires
        replaced(s, d, items, fresh, times).0 is Ok,
    ensures
        items matches Some(list) && replaced(s, d, items, fresh, times).0 == Ok::<nat, Seq<char>>(
            list.len(),
        ) && forall|i: int| 0 <= i < list.len() ==> good_item(#[trigger] list[i]),
{
    lemma_prepared(items.unwrap(), fresh, d);
}

proof fn lemma_nowhere_else(s: StoreView, list: Seq<WidgetView>)
    ensures
        (forall|i: int| 0 <= i < list.len() ==> s.owner(#[trigger] list[i]) is None) <==> misplaced(
            s,
            list,
        ) is None,
    decreases list.len(),
{
    if list.len() > 0 {
        let rest = list.drop_last();
        lemma_nowhere_else(s, rest);
        if forall|i: int| 0 <= i < list.len() ==> s.owner(#[trigger] list[i]) is None {
            assert forall|i: int| 0 <= i < rest.len() implies s.owner(#[trigger] rest[i]) is None by {
                assert(rest[i] == list[i]);
            }
            assert(s.owner(list[list.len() - 1]) is None);
        }
        if misplaced(s, list) is None {
            assert forall|i: int| 0 <= i < list.len() implies s.owner(#[trigger] list[i]) is None by {
                if i < rest.len() {
                    assert(rest[i] == list[i]);
                }
            }
        }
    }
}

/// A batch of good widgets is accepted, as long as none of their ids belongs to another
/// dashboard.
pub proof fn law_good_batches_are_accepted(
    s: StoreView,
    d: Seq<char>,
    items: Seq<Result<WidgetView, Seq<char>>>,
    fresh: Seq<Seq<char>>,
    times: Seq<Seq<char>>,
)
    requires
        forall|i: int| 0 <= i < items.len() ==> good_item(#[trigger] items[i]),
        forall|i: int|
            0 <= i < items.len() ==> (found(
                s.widgets,
                id_in_batch((#[trigger] items[i])->Ok_0, fresh[i]),
            ) matches Some(row) ==> row.dashboard_id == d),
    ensures
        replaced(s, d, Some(items), fresh, times).0 is Ok,
{
    lemma_prepared(items, fresh, d);
    let list = prepared(items, fresh, d)->Ok_0;
    assert forall|i: int| 0 <= i < list.len() implies s.owner(#[trigger] list[i]) is None by {
        assert(good_item(items[i]));
    }
    lemma_nowhere_else(s, list);
}

/// A batch is refused with the fault of its first bad item, and its place in the batch.
pub proof fn law_bad_batches_name_their_first_fault(
    s: StoreView,
    d: Seq<char>,
    items: Seq<Result<WidgetView, Seq<char>>>,
    fresh: Seq<Seq<char>>,
    times: Seq<Seq<char>>,
    i: int,
)
    requires
        0 <= i < items.len(),
        forall|j: int| 0 <= j < i ==> good_item(#[trigger] items[j]),
        !good_item(items[i]),
    ensures
        replaced(s, d, Some(items), fresh, times).1 == s,
        match items[i] {
            Err(e) => replaced(s, d, Some(items), fresh, times).0 == Err::<nat, Seq<char>>(
                "widget #"@ + decimal_of(i as nat) + " is invalid: "@ + e,
            ),
            Ok(w) => replaced(s, d, Some(items), fresh, times).0 == Err::<nat, Seq<char>>(
                "widget #"@ + decimal_of(i as nat) + ": "@ + source_fault(w.source).unwrap(),
            ),
        },
{
    lemma_first_fault(items, fresh, d, i);
}

proof fn lemma_first_fault(
    items: Seq<Result<WidgetView, Seq<char>>>,
    fresh: Seq<Seq<char>>,
    d: Seq<char>,
    i: int,
)
    requires
        0 <= i < items.len(),
        forall|j: int| 0 <= j < i ==> good_item(#[trigger] items[j]),
        !good_item(items[i]),
    ensures
        prepared(items, fresh, d) == match items[i] {
            Err(e) => Err::<Seq<WidgetView>, Seq<char>>(
                "widget #"@ + decimal_of(i as nat) + " is invalid: "@ + e,
            ),
            Ok(w) => Err(
                "widget #"@ + decimal_of(i as nat) + ": "@ + source_fault(w.source).unwrap(),
            ),
        },
    decreases items.len(),
{
    let rest = items.drop_last();
    if i < rest.len() {
        assert(rest[i] == items[i]);
        assert forall|j: int| 0 <= j < i implies good_item(#[trigger] rest[j]) by {
            assert(rest[j] == items[j]);
        }
        lemma_first_fault(rest, fresh, d, i);
    } else {
        assert forall|j: int| 0 <= j < rest.len() implies good_item(#[trigger] rest[j]) by {
            assert(rest[j] == items[j]);
        }
        lemma_prepared(rest, fresh, d);
    }
}

/// A request whose widgets are no array is refused.
pub proof fn law_batches_are_arrays(
    s: StoreView,
    d: Seq<char>,
    fresh: Seq<Seq<char>>,
    times: Seq<Seq<char>>,
)
    ensures
        replaced(s, d, None, fresh, times) == (
            Err::<nat, Seq<char>>("`widgets` must be an array of widget objects"@),
            s,
        ),
{
}

/// After a batch was accepted, each of its widgets is read on the dashboard as it was given,
/// unless a later one of the batch has the same id.
pub proof fn law_batches_are_read_back(
    s: StoreView,
    d: Seq<char>,
    items: Seq<Result<WidgetView, Seq<char>>>,
    fresh: Seq<Seq<char>>,
    times: Seq<Seq<char>>,
    i: int,
    given: WidgetView,
)
    requires
        s.wf(),
        replaced(s, d, Some(items), fresh, times).0 is Ok,
        0 <= i < items.len(),
        items[i] == Ok::<WidgetView, Seq<char>>(given),
        forall|j: int|
            i < j < items.len() ==> id_in_batch((#[trigger] items[j])->Ok_0, fresh[j])
                != id_in_batch(given, fresh[i]),
    ensures
        replaced(s, d, Some(items), fresh, times).1.widget_on(d, id_in_batch(given, fresh[i]))
            matches Ok(Some(w)) && w.id == id_in_batch(given, fresh[i]) && same_definition(w, given, d),
{
    lemma_prepared(items, fresh, d);
    let list = prepared(items, fresh, d)->Ok_0;
    let id = id_in_batch(given, fresh[i]);
    assert forall|k: int| 0 <= k < list.len() implies (#[trigger] list[k]).dashboard_id == d by {
        assert(good_item(items[k]));
    }
    assert(good_item(items[i]));
    assert(list[i].id == id);
    law_batch_becomes_the_dashboard(s, d, list, times, id);
    assert(holds_id(list, id));
    let after = with_replaced(s, d, list, times);
    let k = choose|k: int|
        0 <= k < list.len() && (#[trigger] list[k]).id == id && after.widget_on(d, id) == Ok::<
            Option<WidgetView>,
            Seq<char>,
        >(Some(list[k])) && forall|j: int| k < j < list.len() ==> (#[trigger] list[j]).id != id;
    assert(good_item(items[k]));
    if k < i {
        assert(list[i].id != id);
    }
    if k > i {
        assert(id_in_batch(items[k]->Ok_0, fresh[k]) != id);
    }
}

/// After a batch was accepted, nothing else is read on the dashboard, and what other dashboards
/// hold is as it was.
pub proof fn law_batches_leave_nothing_else(
    s: StoreView,
    d: Seq<char>,
    items: Seq<Result<WidgetView, Seq<char>>>,
    fresh: Seq<Seq<char>>,
    times: Seq<Seq<char>>,
    id: Seq<char>,
)
    requires
        s.wf(),
        replaced(s, d, Some(items), fresh, times).0 is Ok,
    ensures
        (forall|j: int|
            0 <= j < items.len() ==> id_in_batch((#[trigger] items[j])->Ok_0, fresh[j]) != id)
            ==> !(replaced(s, d, Some(items), fresh, times).1.widget_on(d, id) matches Ok(Some(_))),
        (found(s.widgets, id) matches Some(row) && row.dashboard_id != d) ==> found(
            replaced(s, d, Some(items), fresh, times).1.widgets,
            id,
        ) == found(s.widgets, id),
{
    lemma_prepared(items, fresh, d);
    let list = prepared(items, fresh, d)->Ok_0;
    assert forall|k: int| 0 <= k < list.len() implies (#[trigger] list[k]).dashboard_id == d by {
        assert(good_item(items[k]));
    }
    law_batch_becomes_the_dashboard(s, d, list, times, id);
    if holds_id(list, id) {
        let j = choose|j: int| 0 <= j < list.len() && (#[trigger] list[j]).id == id;
        assert(good_item(items[j]));
        assert(id_in_batch(items[j]->Ok_0, fresh[j]) == id);
    }
}

proof fn lemma_written_at(s: StoreView, list: Seq<WidgetView>, times: Seq<Seq<char>>, i: int)
    requires
        0 <= i < list.len(),
        forall|j: int| i < j < list.len() ==> (#[trigger] list[j]).id != list[i].id,
    ensures
        found(with_all(s, list, times).widgets, list[i].id) matches Some(row) && row.updated_at
            == times[i],
    decreases list.len(),
{
    let rest = list.drop_last();
    let before = with_all(s, rest, times);
    let last = list.len() - 1;
    let row = before.widget_row(list.last(), times[last]);
    if i == last {
        law_put_is_found(before.widgets, row);
    } else {
        assert(rest[i] == list[i]);
        assert(list[last].id != list[i].id);
        assert forall|j: int| i < j < rest.len() implies (#[trigger] rest[j]).id != rest[i].id by {
            assert(rest[j] == list[j]);
        }
        lemma_written_at(s, rest, times, i);
        law_put_leaves_others(before.widgets, row, list[i].id);
    }
}

/// Each widget of an accepted batch is written at its own time.
pub proof fn law_batches_are_written_at_their_times(
    s: StoreView,
    d: Seq<char>,
    items: Seq<Result<WidgetView, Seq<char>>>,
    fresh: Seq<Seq<char>>,
    times: Seq<Seq<char>>,
    i: int,
    given: WidgetView,
)
    requires
        replaced(s, d, Some(items), fresh, times).0 is Ok,
        0 <= i < items.len(),
        items[i] == Ok::<WidgetView, Seq<char>>(given),
        forall|j: int|
            i < j < items.len() ==> id_in_batch((#[trigger] items[j])->Ok_0, fresh[j])
                != id_in_batch(given, fresh[i]),
    ensures
        found(
            replaced(s, d, Some(items), fresh, times).1.widgets,
            id_in_batch(given, fresh[i]),
        ) matches Some(row) && row.updated_at == times[i],
{
    lemma_prepared(items, fresh, d);
    let list = prepared(items, fresh, d)->Ok_0;
    assert(good_item(items[i]));
    assert forall|j: int| i < j < list.len() implies (#[trigger] list[j]).id != list[i].id by {
        assert(good_item(items[j]));
        assert(id_in_batch(items[j]->Ok_0, fresh[j]) != id_in_batch(given, fresh[i]));
    }
    lemma_written_at(without_all(s, readable_on(by_creation(s.widgets), d)), list, times, i);
}

proof fn lemma_without_all_keeps(s: StoreView, list: Seq<WidgetView>)
    ensures
        without_all(s, list).devices == s.devices,
        without_all(s, list).dashboards == s.dashboards,
    decreases list.len(),
{
    if list.len() > 0 {
        lemma_without_all_keeps(s, list.drop_last());
    }
}

proof fn lemma_with_all_keeps(s: StoreView, list: Seq<WidgetView>, times: Seq<Seq<char>>)
    ensures
        with_all(s, list, times).devices == s.devices,
        with_all(s, list, times).dashboards == s.dashboards,
    decreases list.len(),
{
    if list.len() > 0 {
        lemma_with_all_keeps(s, list.drop_last(), times);
    }
}

/// Replacing widgets touches neither dashboards nor bindings.
pub proof fn law_batches_touch_widgets_only(
    s: StoreView,
    d: Seq<char>,
    items: Option<Seq<Result<WidgetView, Seq<char>>>>,
    fresh: Seq<Seq<char>>,
    times: Seq<Seq<char>>,
)
    ensures
        replaced(s, d, items, fresh, times).1.devices == s.devices,
        replaced(s, d, items, fresh, times).1.dashboards == s.dashboards,
{
    let existing = readable_on(by_creation(s.widgets), d);
    lemma_without_all_keeps(s, existing);
    if let Some(list) = items {
        if let Ok(widgets) = prepared(list, fresh, d) {
            lemma_with_all_keeps(without_all(s, existing), widgets, times);
        }
    }
}

} // verus!
