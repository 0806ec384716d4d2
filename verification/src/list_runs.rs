//! How the rows of the message list stand together: those of a conversation in one run,
//! the newest message first and the older members right behind it.
use crate::list_entries::{
    close_last, day_items, day_key, day_sections, item_rows, lemma_section_days, list_entries, pinned_items, pinned_key,
    pinned_section, rows_of, section, section_days,
};
use crate::list_laws::{
    all_valid, items_shown, law_every_message_has_one_row, law_groups_are_conversations, law_list_shows_its_items,
    nothing_collapsed, references, shown_messages, some_collapsed,
};
use crate::message_list::{grouped_items, MessageListItemView, MsgEntryView, SectionLabel};
use crate::model::{MessageHeaderView, MessageRefView};
use vstd::prelude::*;

verus! {

/// Whether the rows of an item stand in the list from the place `at` on, one behind the
/// other. The last row of a section may close its frame besides.
pub open spec fn stands_at(entries: Seq<MsgEntryView>, at: int, item: MessageListItemView, pinned: bool) -> bool {
    let rows = item_rows(item, pinned);
    &&& 0 <= at
    &&& at + rows.len() <= entries.len()
    &&& forall|m: int|
        0 <= m < rows.len() ==> #[trigger] entries[at + m] == rows[m] || entries[at + m] == rows[m].closing()
}

/// Whether the list shows an item.
pub open spec fn shows_item(entries: Seq<MsgEntryView>, item: MessageListItemView, pinned: bool) -> bool {
    exists|at: int| #[trigger] stands_at(entries, at, item, pinned)
}

/// Whether the entry `e` of the list is one of the rows of an item.
pub open spec fn row_of_item(entries: Seq<MsgEntryView>, e: int, item: MessageListItemView, pinned: bool) -> bool {
    exists|at: int| #[trigger]
        stands_at(entries, at, item, pinned) && at <= e < at + item_rows(item, pinned).len()
}

/// Whether every item is shown.
spec fn shows_all(entries: Seq<MsgEntryView>, items: Seq<MessageListItemView>, pinned: bool) -> bool {
    forall|k: int| 0 <= k < items.len() ==> shows_item(entries, #[trigger] items[k], pinned)
}

/// Whether every entry is a header or a row of one of the items.
spec fn shows_only(entries: Seq<MsgEntryView>, items: Seq<MessageListItemView>, pinned: bool) -> bool {
    forall|e: int|
        0 <= e < entries.len() && !(#[trigger] entries[e] is Header) ==> of_some_item(entries, e, items, pinned)
}

/// Whether an entry is a row of one of the items.
spec fn of_some_item(entries: Seq<MsgEntryView>, e: int, items: Seq<MessageListItemView>, pinned: bool) -> bool {
    exists|k: int| 0 <= k < items.len() && row_of_item(entries, e, #[trigger] items[k], pinned)
}

/// What stands in a part of the list stands in the list.
proof fn lemma_part(
    front: Seq<MsgEntryView>,
    part: Seq<MsgEntryView>,
    back: Seq<MsgEntryView>,
    at: int,
    item: MessageListItemView,
    pinned: bool,
)
    requires
        stands_at(part, at, item, pinned),
    ensures
        stands_at(front + part + back, front.len() + at, item, pinned),
{
    let all = front + part + back;
    let rows = item_rows(item, pinned);
    assert forall|m: int| 0 <= m < rows.len() implies #[trigger] all[front.len() + at + m] == rows[m]
        || all[front.len() + at + m] == rows[m].closing() by {
        assert(all[front.len() + at + m] == part[at + m]);
    }
}

proof fn lemma_part_shows(
    front: Seq<MsgEntryView>,
    part: Seq<MsgEntryView>,
    back: Seq<MsgEntryView>,
    item: MessageListItemView,
    pinned: bool,
)
    requires
        shows_item(part, item, pinned),
    ensures
        shows_item(front + part + back, item, pinned),
{
    let at = choose|at: int| #[trigger] stands_at(part, at, item, pinned);
    lemma_part(front, part, back, at, item, pinned);
}

proof fn lemma_part_row(
    front: Seq<MsgEntryView>,
    part: Seq<MsgEntryView>,
    back: Seq<MsgEntryView>,
    e: int,
    item: MessageListItemView,
    pinned: bool,
)
    requires
        row_of_item(part, e, item, pinned),
    ensures
        row_of_item(front + part + back, front.len() + e, item, pinned),
{
    let at = choose|at: int| #[trigger]
        stands_at(part, at, item, pinned) && at <= e < at + item_rows(item, pinned).len();
    lemma_part(front, part, back, at, item, pinned);
}

proof fn lemma_rows(items: Seq<MessageListItemView>, pinned: bool)
    ensures
        shows_all(rows_of(items, pinned), items, pinned),
        shows_only(rows_of(items, pinned), items, pinned),
    decreases items.len(),
{
    let rows = rows_of(items, pinned);
    if items.len() > 0 {
        let init = items.drop_last();
        let before = rows_of(init, pinned);
        let own = item_rows(items.last(), pinned);
        let none = Seq::<MsgEntryView>::empty();
        lemma_rows(init, pinned);
        assert(none + before + own =~= rows);
        assert(before + own + none =~= rows);
        assert(stands_at(own, 0, items.last(), pinned));
        lemma_part(before, own, none, 0, items.last(), pinned);
        assert forall|k: int| 0 <= k < items.len() implies shows_item(rows, #[trigger] items[k], pinned) by {
            if k < init.len() {
                assert(init[k] == items[k]);
                lemma_part_shows(none, before, own, items[k], pinned);
            }
        }
        assert forall|e: int| 0 <= e < rows.len() && !(#[trigger] rows[e] is Header) implies of_some_item(
            rows,
            e,
            items,
            pinned,
        ) by {
            if e < before.len() {
                assert(before[e] == rows[e]);
                let k = choose|k: int| 0 <= k < init.len() && row_of_item(before, e, #[trigger] init[k], pinned);
                lemma_part_row(none, before, own, e, init[k], pinned);
                assert(items[k] == init[k]);
                assert(row_of_item(rows, e, items[k], pinned));
            } else {
                assert(row_of_item(rows, e, items[items.len() - 1], pinned));
            }
        }
    }
}

proof fn lemma_closed(rows: Seq<MsgEntryView>, at: int, item: MessageListItemView, pinned: bool)
    requires
        stands_at(rows, at, item, pinned),
    ensures
        stands_at(close_last(rows), at, item, pinned),
{
    let closed = close_last(rows);
    let own = item_rows(item, pinned);
    assert forall|m: int| 0 <= m < own.len() implies #[trigger] closed[at + m] == own[m] || closed[at + m]
        == own[m].closing() by {
        assert(closed[at + m] == rows[at + m] || closed[at + m] == rows[at + m].closing());
    }
}

proof fn lemma_section(
    key: Seq<char>,
    label: SectionLabel,
    items: Seq<MessageListItemView>,
    pinned: bool,
    collapsed: bool,
)
    ensures
        !collapsed ==> shows_all(section(key, label, items, pinned, collapsed), items, pinned),
        shows_only(section(key, label, items, pinned, collapsed), items, pinned),
{
    let header = MsgEntryView::Header { key, label, count: items.len() as usize, pinned, collapsed };
    let head = seq![header];
    let rows = rows_of(items, pinned);
    let closed = close_last(rows);
    let all = section(key, label, items, pinned, collapsed);
    let none = Seq::<MsgEntryView>::empty();
    lemma_rows(items, pinned);
    if !collapsed {
        assert(head + closed + none =~= all);
        assert forall|k: int| 0 <= k < items.len() implies shows_item(all, #[trigger] items[k], pinned) by {
            let at = choose|at: int| #[trigger] stands_at(rows, at, items[k], pinned);
            lemma_closed(rows, at, items[k], pinned);
            lemma_part(head, closed, none, at, items[k], pinned);
        }
        assert forall|e: int| 0 <= e < all.len() && !(#[trigger] all[e] is Header) implies of_some_item(
            all,
            e,
            items,
            pinned,
        ) by {
            let r = e - 1;
            assert(all[0] == header);
            assert(closed[r] == all[e]);
            assert(!(rows[r] is Header));
            let k = choose|k: int| 0 <= k < items.len() && row_of_item(rows, r, #[trigger] items[k], pinned);
            let at = choose|at: int| #[trigger]
                stands_at(rows, at, items[k], pinned) && at <= r < at + item_rows(items[k], pinned).len();
            lemma_closed(rows, at, items[k], pinned);
            lemma_part(head, closed, none, at, items[k], pinned);
            assert(row_of_item(all, e, items[k], pinned));
        }
    }
}

/// The items of a day are items of the list that are not pinned and dated that day.
proof fn lemma_day_items(
    items: Seq<MessageListItemView>,
    days: Seq<i32>,
    pins: Seq<MessageRefView>,
    day: i32,
)
    requires
        items.len() == days.len(),
    ensures
        forall|k: int|
            0 <= k < items.len() && !(#[trigger] items[k]).pinned(pins) && days[k] == day ==> day_items(
                items,
                days,
                pins,
                day,
            ).contains(items[k]),
        forall|i: int|
            0 <= i < day_items(items, days, pins, day).len() ==> {
                let item = #[trigger] day_items(items, days, pins, day)[i];
                items.contains(item) && !item.pinned(pins)
            },
    decreases items.len(),
{
    if items.len() > 0 {
        let init = items.drop_last();
        let chosen = day_items(items, days, pins, day);
        let before = day_items(init, days.drop_last(), pins, day);
        lemma_day_items(init, days.drop_last(), pins, day);
        assert forall|k: int| 0 <= k < items.len() && !(#[trigger] items[k]).pinned(pins) && days[k]
            == day implies chosen.contains(items[k]) by {
            if k < init.len() {
                assert(init[k] == items[k]);
                assert(before.contains(init[k]));
                let i = choose|i: int| 0 <= i < before.len() && before[i] == items[k];
                assert(chosen[i] == items[k]);
            } else {
                assert(chosen[before.len() as int] == items[k]);
            }
        }
        assert forall|i: int| 0 <= i < chosen.len() implies {
            let item = #[trigger] chosen[i];
            items.contains(item) && !item.pinned(pins)
        } by {
            if i < before.len() {
                assert(chosen[i] == before[i]);
                let k = choose|k: int| 0 <= k < init.len() && init[k] == before[i];
                assert(items[k] == chosen[i]);
            } else {
                assert(items[items.len() - 1] == chosen[i]);
            }
        }
    }
}

/// What the sections of days show.
proof fn lemma_days(
    items: Seq<MessageListItemView>,
    days: Seq<i32>,
    pins: Seq<MessageRefView>,
    collapsed: Seq<Seq<char>>,
    shown: Seq<i32>,
)
    requires
        items.len() == days.len(),
    ensures
        !some_collapsed(shown, collapsed) ==> forall|k: int|
            0 <= k < items.len() && !(#[trigger] items[k]).pinned(pins) && shown.contains(days[k]) ==> shows_item(
                day_sections(items, days, pins, collapsed, shown),
                items[k],
                false,
            ),
        forall|e: int|
            0 <= e < day_sections(items, days, pins, collapsed, shown).len() && !(#[trigger] day_sections(
                items,
                days,
                pins,
                collapsed,
                shown,
            )[e] is Header) ==> in_the_list(day_sections(items, days, pins, collapsed, shown), e, items, pins),
    decreases shown.len(),
{
    if shown.len() > 0 {
        let rest = shown.drop_last();
        let day = shown.last();
        let chosen = day_items(items, days, pins, day);
        let hidden = collapsed.contains(day_key(day));
        let all = day_sections(items, days, pins, collapsed, shown);
        let a = day_sections(items, days, pins, collapsed, rest);
        let b = section(day_key(day), SectionLabel::Day(day), chosen, false, hidden);
        let none = Seq::<MsgEntryView>::empty();
        lemma_days(items, days, pins, collapsed, rest);
        lemma_day_items(items, days, pins, day);
        lemma_section(day_key(day), SectionLabel::Day(day), chosen, false, hidden);
        assert(none + a + b =~= all);
        assert(a + b + none =~= all);
        if !some_collapsed(shown, collapsed) {
            assert(!some_collapsed(rest, collapsed)) by {
                assert forall|i: int| 0 <= i < rest.len() implies !collapsed.contains(day_key(#[trigger] rest[i])) by {
                    assert(rest[i] == shown[i]);
                }
            }
            assert(!collapsed.contains(day_key(shown[shown.len() - 1])));
            assert forall|k: int|
                0 <= k < items.len() && !(#[trigger] items[k]).pinned(pins) && shown.contains(
                    days[k],
                ) implies shows_item(all, items[k], false) by {
                if days[k] == day {
                    let i = choose|i: int| 0 <= i < chosen.len() && chosen[i] == items[k];
                    assert(shows_item(b, chosen[i], false));
                    lemma_part_shows(a, b, none, items[k], false);
                } else {
                    let i = choose|i: int| 0 <= i < shown.len() && shown[i] == days[k];
                    assert(rest[i] == days[k]);
                    assert(rest.contains(days[k]));
                    lemma_part_shows(none, a, b, items[k], false);
                }
            }
        }
        assert forall|e: int| 0 <= e < all.len() && !(#[trigger] all[e] is Header) implies in_the_list(
            all,
            e,
            items,
            pins,
        ) by {
            if e < a.len() {
                assert(a[e] == all[e]);
                let k = choose|k: int|
                    0 <= k < items.len() && row_of_item(a, e, #[trigger] items[k], items[k].pinned(pins));
                lemma_part_row(none, a, b, e, items[k], items[k].pinned(pins));
                assert(row_of_item(all, e, items[k], items[k].pinned(pins)));
            } else {
                let r = e - a.len();
                assert(b[r] == all[e]);
                let i = choose|i: int| 0 <= i < chosen.len() && row_of_item(b, r, #[trigger] chosen[i], false);
                lemma_part_row(a, b, none, r, chosen[i], false);
                assert(items.contains(chosen[i]));
                let k = choose|k: int| 0 <= k < items.len() && items[k] == chosen[i];
                assert(row_of_item(all, e, items[k], items[k].pinned(pins)));
            }
        }
    }
}

/// Whether an entry is a row of one of the items, in the section that the item is in.
pub open spec fn in_the_list(
    entries: Seq<MsgEntryView>,
    e: int,
    items: Seq<MessageListItemView>,
    pins: Seq<MessageRefView>,
) -> bool {
    exists|k: int| 0 <= k < items.len() && row_of_item(entries, e, #[trigger] items[k], items[k].pinned(pins))
}

/// The rows of an item stand together: with no section collapsed every item has its run of
/// rows, and whatever is collapsed an entry that is not a header is part of such a run. A
/// conversation that is expanded has its older members right behind its own row, in order.
pub proof fn law_rows_of_an_item_stand_together(
    items: Seq<MessageListItemView>,
    days: Seq<i32>,
    pins: Seq<MessageRefView>,
    collapsed: Seq<Seq<char>>,
)
    requires
        items.len() == days.len(),
    ensures
        nothing_collapsed(items, days, pins, collapsed) ==> forall|k: int|
            0 <= k < items.len() ==> shows_item(
                list_entries(items, days, pins, collapsed),
                #[trigger] items[k],
                items[k].pinned(pins),
            ),
        forall|e: int|
            0 <= e < list_entries(items, days, pins, collapsed).len() && !(#[trigger] list_entries(
                items,
                days,
                pins,
                collapsed,
            )[e] is Header) ==> in_the_list(list_entries(items, days, pins, collapsed), e, items, pins),
{
    let all = list_entries(items, days, pins, collapsed);
    let shown = section_days(items, days, pins);
    let pinned = pinned_items(items, pins);
    let a = pinned_section(items, pins, collapsed);
    let b = day_sections(items, days, pins, collapsed, shown);
    let none = Seq::<MsgEntryView>::empty();
    lemma_section_days(items, days, pins);
    lemma_days(items, days, pins, collapsed, shown);
    lemma_section(pinned_key(), SectionLabel::Pinned, pinned, true, collapsed.contains(pinned_key()));
    assert(none + a + b =~= all);
    assert(a + b + none =~= all);
    if nothing_collapsed(items, days, pins, collapsed) {
        assert forall|k: int| 0 <= k < items.len() implies shows_item(all, #[trigger] items[k], items[k].pinned(pins)) by {
            if items[k].pinned(pins) {
                lemma_pinned_item(items, pins, k);
                let i = choose|i: int| 0 <= i < pinned.len() && pinned[i] == items[k];
                assert(shows_item(a, pinned[i], true));
                lemma_part_shows(none, a, b, items[k], true);
            } else {
                assert(shown.contains(days[k]));
                lemma_part_shows(a, b, none, items[k], false);
            }
        }
    }
    assert forall|e: int| 0 <= e < all.len() && !(#[trigger] all[e] is Header) implies in_the_list(all, e, items, pins) by {
        if e < a.len() {
            assert(a[e] == all[e]);
            let i = choose|i: int| 0 <= i < pinned.len() && row_of_item(a, e, #[trigger] pinned[i], true);
            lemma_part_row(none, a, b, e, pinned[i], true);
            lemma_pinned_origin(items, pins, i);
            let k = choose|k: int| 0 <= k < items.len() && items[k] == pinned[i];
            assert(row_of_item(all, e, items[k], items[k].pinned(pins)));
        } else {
            let r = e - a.len();
            assert(b[r] == all[e]);
            let k = choose|k: int|
                0 <= k < items.len() && row_of_item(b, r, #[trigger] items[k], items[k].pinned(pins));
            lemma_part_row(a, b, none, r, items[k], items[k].pinned(pins));
            assert(row_of_item(all, e, items[k], items[k].pinned(pins)));
        }
    }
}

proof fn lemma_pinned_item(items: Seq<MessageListItemView>, pins: Seq<MessageRefView>, k: int)
    requires
        0 <= k < items.len(),
        items[k].pinned(pins),
    ensures
        pinned_items(items, pins).contains(items[k]),
{
    items.lemma_filter_contains(crate::list_entries::item_is_pinned(pins), k);
}

proof fn lemma_pinned_origin(items: Seq<MessageListItemView>, pins: Seq<MessageRefView>, i: int)
    requires
        0 <= i < pinned_items(items, pins).len(),
    ensures
        items.contains(pinned_items(items, pins)[i]),
        pinned_items(items, pins)[i].pinned(pins),
{
    items.lemma_filter_pred(crate::list_entries::item_is_pinned(pins), i);
    items.lemma_filter_contains_rev(crate::list_entries::item_is_pinned(pins), pinned_items(items, pins)[i]);
}

proof fn lemma_entries_apart(entries: Seq<MsgEntryView>)
    requires
        shown_messages(entries).no_duplicates(),
    ensures
        forall|i: int, j: int|
            #![trigger entries[i], entries[j]]
            0 <= i < j < entries.len() && !(entries[i] is Header) ==> entries[i].message() != entries[j].message(),
        forall|i: int|
            0 <= i < entries.len() && !(#[trigger] entries[i] is Header) ==> shown_messages(entries).contains(
                entries[i].message()->0,
            ),
    decreases entries.len(),
{
    if entries.len() > 0 {
        let front = entries.drop_last();
        let shown = shown_messages(entries);
        let before = shown_messages(front);
        let last = entries.last();
        assert(entries[entries.len() - 1] == last);
        assert(before.no_duplicates()) by {
            assert forall|i: int, j: int| 0 <= i < before.len() && 0 <= j < before.len() && i != j implies before[i]
                != before[j] by {
                assert(shown[i] == before[i] && shown[j] == before[j]);
            }
        }
        lemma_entries_apart(front);
        assert(forall|i: int| 0 <= i < front.len() ==> front[i] == #[trigger] entries[i]);
        assert forall|i: int| 0 <= i < entries.len() && !(#[trigger] entries[i] is Header) implies shown.contains(
            entries[i].message()->0,
        ) by {
            if i < front.len() {
                assert(front[i] == entries[i]);
                let k = choose|k: int| 0 <= k < before.len() && before[k] == entries[i].message()->0;
                assert(shown[k] == before[k]);
            } else {
                assert(shown[before.len() as int] == last.message()->0);
            }
        }
        assert forall|i: int, j: int|
            #![trigger entries[i], entries[j]]
            0 <= i < j < entries.len() && !(entries[i] is Header) implies entries[i].message() != entries[j].message() by {
            assert(front[i] == entries[i]);
            if j < front.len() {
                assert(front[j] == entries[j]);
            } else if !(last is Header) {
                let k = choose|k: int| 0 <= k < before.len() && before[k] == entries[i].message()->0;
                assert(shown[k] == before[k]);
                assert(shown[before.len() as int] == last.message()->0);
            }
        }
    }
}

/// The list of messages that differ, with no section collapsed, has one row or one
/// conversation for each of them and no more: no two entries stand for the same message,
/// the entries show what the items show, every item has its run of rows, and every entry
/// that is not a header is part of the run of an item.
pub proof fn law_the_list_is_made_of_conversations(
    headers: Seq<MessageHeaderView>,
    expanded: Seq<(Seq<char>, Seq<char>)>,
    totals: Seq<((Seq<char>, Seq<char>), usize)>,
    days: Seq<i32>,
    pins: Seq<MessageRefView>,
    collapsed: Seq<Seq<char>>,
)
    requires
        headers.len() <= usize::MAX,
        days.len() == grouped_items(headers, headers.len() as int, expanded, totals, pins).len(),
        references(headers).no_duplicates(),
        nothing_collapsed(
            grouped_items(headers, headers.len() as int, expanded, totals, pins),
            days,
            pins,
            collapsed,
        ),
    ensures
        ({
            let items = grouped_items(headers, headers.len() as int, expanded, totals, pins);
            let entries = list_entries(items, days, pins, collapsed);
            &&& forall|i: int, j: int|
                #![trigger entries[i], entries[j]]
                0 <= i < j < entries.len() && !(entries[i] is Header) ==> entries[i].message() != entries[j].message()
            &&& shown_messages(entries).to_multiset() == items_shown(items)
            &&& forall|k: int|
                0 <= k < items.len() ==> shows_item(entries, #[trigger] items[k], items[k].pinned(pins))
            &&& forall|e: int|
                0 <= e < entries.len() && !(#[trigger] entries[e] is Header) ==> in_the_list(entries, e, items, pins)
        }),
{
    let items = grouped_items(headers, headers.len() as int, expanded, totals, pins);
    law_groups_are_conversations(headers, headers.len() as int, expanded, totals, pins);
    assert(all_valid(items));
    law_every_message_has_one_row(headers, expanded, totals, days, pins, collapsed);
    law_list_shows_its_items(items, days, pins, collapsed);
    law_rows_of_an_item_stand_together(items, days, pins, collapsed);
    lemma_entries_apart(list_entries(items, days, pins, collapsed));
}

/// What the run of an item holds: the row of a lone message, or that of a conversation and,
/// where it is expanded, the older members behind it in order, as indented rows.
pub proof fn law_older_members_follow(entries: Seq<MsgEntryView>, at: int, item: MessageListItemView, pinned: bool)
    requires
        stands_at(entries, at, item, pinned),
        item.valid(),
    ensures
        match item {
            MessageListItemView::Single(message) => {
                &&& entries[at] is Row
                &&& entries[at].message() == Some(message.reference())
                &&& !entries[at]->in_group
            },
            MessageListItemView::Group { members, row } => {
                &&& entries[at] is Group
                &&& entries[at].message() == Some(members[0].reference())
                &&& entries[at]->group == row
                &&& row.expanded ==> forall|m: int|
                    1 <= m < members.len() ==> {
                        let entry = #[trigger] entries[at + m];
                        entry is Row && entry->in_group && entry.message() == Some(members[m].reference())
                    }
            },
        },
{
    let rows = item_rows(item, pinned);
    assert(entries[at + 0] == rows[0] || entries[at + 0] == rows[0].closing());
    match item {
        MessageListItemView::Single(_) => {},
        MessageListItemView::Group { members, row } => {
            if row.expanded {
                assert forall|m: int| 1 <= m < members.len() implies {
                    let entry = #[trigger] entries[at + m];
                    entry is Row && entry->in_group && entry.message() == Some(members[m].reference())
                } by {
                    assert(rows[m] == crate::list_entries::row_entry(members[m], pinned, true));
                }
            }
        },
    }
}

} // verus!
