//! Laying the message list out: the pinned section first, then one section per
//! day, newest day first.
use crate::dates::{day_text, print_day, valid_day};
use crate::lists::{distinct, ordered, ranks, stable_sort};
use crate::message_list::{MessageListItem, MessageListItemView, MsgEntry, MsgEntryView, SectionLabel};
use crate::model::{MessageHeaderView, MessageRef, MessageRefView};
use vstd::multiset::Multiset;
use vstd::prelude::*;
use vstd::string::*;

verus! {

/// The row of a message.
pub open spec fn row_entry(message: MessageHeaderView, pinned: bool, in_group: bool) -> MsgEntryView {
    MsgEntryView::Row { reference: message.reference(), time_only: !pinned, pinned, section_end: false, in_group }
}

/// The row of an indented member of a conversation.
pub open spec fn member_row(pinned: bool) -> spec_fn(MessageHeaderView) -> MsgEntryView {
    |message: MessageHeaderView| row_entry(message, pinned, true)
}

/// The rows of an item. A conversation shows its newest message in its own row;
/// when it is expanded the other members follow.
pub open spec fn item_rows(item: MessageListItemView, pinned: bool) -> Seq<MsgEntryView> {
    match item {
        MessageListItemView::Single(message) => seq![row_entry(message, pinned, false)],
        MessageListItemView::Group { members, row } => {
            let summary = MsgEntryView::Group {
                reference: members[0].reference(),
                group: row,
                time_only: !pinned,
                pinned,
                section_end: false,
            };
            if row.expanded {
                seq![summary] + members.skip(1).map_values(member_row(pinned))
            } else {
                seq![summary]
            }
        },
    }
}

/// The rows of several items.
pub open spec fn rows_of(items: Seq<MessageListItemView>, pinned: bool) -> Seq<MsgEntryView>
    decreases items.len(),
{
    if items.len() == 0 {
        Seq::empty()
    } else {
        rows_of(items.drop_last(), pinned) + item_rows(items.last(), pinned)
    }
}

/// `rows` with the frame of the section closed on the last of them.
pub open spec fn close_last(rows: Seq<MsgEntryView>) -> Seq<MsgEntryView> {
    if rows.len() == 0 {
        rows
    } else {
        rows.update(rows.len() - 1, rows.last().closing())
    }
}

/// A section: its header and, unless it is collapsed, its rows.
pub open spec fn section(
    key: Seq<char>,
    label: SectionLabel,
    items: Seq<MessageListItemView>,
    pinned: bool,
    collapsed: bool,
) -> Seq<MsgEntryView> {
    let header = MsgEntryView::Header { key, label, count: items.len() as usize, pinned, collapsed };
    if collapsed {
        seq![header]
    } else {
        seq![header] + close_last(rows_of(items, pinned))
    }
}

/// Whether an item belongs to the pinned section.
pub open spec fn item_is_pinned(pins: Seq<MessageRefView>) -> spec_fn(MessageListItemView) -> bool {
    |item: MessageListItemView| item.pinned(pins)
}

/// The items of the pinned section.
pub open spec fn pinned_items(items: Seq<MessageListItemView>, pins: Seq<MessageRefView>) -> Seq<
    MessageListItemView,
> {
    items.filter(item_is_pinned(pins))
}

/// The items that are not pinned and dated `day`.
pub open spec fn day_items(
    items: Seq<MessageListItemView>,
    days: Seq<i32>,
    pins: Seq<MessageRefView>,
    day: i32,
) -> Seq<MessageListItemView>
    decreases items.len(),
{
    if items.len() == 0 {
        Seq::empty()
    } else {
        let before = day_items(items.drop_last(), days.drop_last(), pins, day);
        if !items.last().pinned(pins) && days.last() == day {
            before.push(items.last())
        } else {
            before
        }
    }
}

/// The days of the items that are not pinned.
pub open spec fn loose_days(items: Seq<MessageListItemView>, days: Seq<i32>, pins: Seq<MessageRefView>) -> Seq<i32>
    decreases items.len(),
{
    if items.len() == 0 {
        Seq::empty()
    } else {
        let before = loose_days(items.drop_last(), days.drop_last(), pins);
        if items.last().pinned(pins) {
            before
        } else {
            before.push(days.last())
        }
    }
}

/// A day may stand before another one that is not later.
pub open spec fn later_first() -> spec_fn(i32, i32) -> bool {
    |a: i32, b: i32| a >= b
}

/// The days that have a section, newest first.
pub open spec fn section_days(items: Seq<MessageListItemView>, days: Seq<i32>, pins: Seq<MessageRefView>) -> Seq<i32> {
    stable_sort(distinct(loose_days(items, days, pins)), later_first())
}

/// Key of the pinned section.
pub open spec fn pinned_key() -> Seq<char> {
    "pinned"@
}

/// Key of the section of a day.
pub open spec fn day_key(day: i32) -> Seq<char> {
    "day:"@ + day_text(day as int)
}

/// The sections of the given days.
pub open spec fn day_sections(
    items: Seq<MessageListItemView>,
    days: Seq<i32>,
    pins: Seq<MessageRefView>,
    collapsed: Seq<Seq<char>>,
    shown: Seq<i32>,
) -> Seq<MsgEntryView>
    decreases shown.len(),
{
    if shown.len() == 0 {
        Seq::empty()
    } else {
        let day = shown.last();
        day_sections(items, days, pins, collapsed, shown.drop_last()) + section(
            day_key(day),
            SectionLabel::Day(day),
            day_items(items, days, pins, day),
            false,
            collapsed.contains(day_key(day)),
        )
    }
}

/// The pinned section, if anything is pinned.
pub open spec fn pinned_section(
    items: Seq<MessageListItemView>,
    pins: Seq<MessageRefView>,
    collapsed: Seq<Seq<char>>,
) -> Seq<MsgEntryView> {
    let pinned = pinned_items(items, pins);
    if pinned.len() == 0 {
        Seq::empty()
    } else {
        section(pinned_key(), SectionLabel::Pinned, pinned, true, collapsed.contains(pinned_key()))
    }
}

/// The whole list: the pinned section, then the days, newest first.
pub open spec fn list_entries(
    items: Seq<MessageListItemView>,
    days: Seq<i32>,
    pins: Seq<MessageRefView>,
    collapsed: Seq<Seq<char>>,
) -> Seq<MsgEntryView> {
    pinned_section(items, pins, collapsed) + day_sections(
        items,
        days,
        pins,
        collapsed,
        section_days(items, days, pins),
    )
}

/// Whether `texts` holds `text`.
pub(crate) fn holds_text(texts: &Vec<String>, text: &String) -> (found: bool)
    ensures
        found == texts.deep_view().contains(text@),
{
    let mut i: usize = 0;
    while i < texts.len()
        invariant
            i <= texts.len(),
            forall|j: int| 0 <= j < i ==> texts.deep_view()[j] != text@,
        decreases texts.len() - i,
    {
        assert(texts.deep_view()[i as int] == texts[i as int]@);
        if texts[i] == *text {
            return true;
        }
        i += 1;
    }
    false
}

/// Whether an item belongs to the pinned section.
fn in_pinned_section(item: &MessageListItem<'_>, pins: &Vec<MessageRef>) -> (pinned: bool)
    ensures
        pinned == item.deep_view().pinned(pins.deep_view()),
{
    match item {
        MessageListItem::Single(message) => crate::message_list::names_pinned(pins, message),
        MessageListItem::Group { row, .. } => row.pinned,
    }
}

/// Appends the rows of an item.
fn push_item(entries: &mut Vec<MsgEntry>, item: &MessageListItem<'_>, pinned: bool)
    requires
        item.deep_view().valid(),
    ensures
        final(entries).deep_view() == old(entries).deep_view() + item_rows(item.deep_view(), pinned),
{
    let ghost start = entries.deep_view();
    match item {
        MessageListItem::Single(message) => {
            entries.push(
                MsgEntry::Row {
                    reference: message.reference(),
                    time_only: !pinned,
                    pinned,
                    section_end: false,
                    in_group: false,
                },
            );
            assert(entries.deep_view() =~= start + item_rows(item.deep_view(), pinned));
        },
        MessageListItem::Group { members, row } => {
            let ghost all = members.deep_view();
            assert(all.len() == members.len());
            assert(all[0] == members[0].deep_view());
            entries.push(
                MsgEntry::Group {
                    reference: members[0].reference(),
                    group: row.clone(),
                    time_only: !pinned,
                    pinned,
                    section_end: false,
                },
            );
            let ghost summary = MsgEntryView::Group {
                reference: all[0].reference(),
                group: row.deep_view(),
                time_only: !pinned,
                pinned,
                section_end: false,
            };
            assert(entries.deep_view() =~= start.push(summary));
            if row.expanded {
                let mut i: usize = 1;
                assert(all.subrange(1, 1).map_values(member_row(pinned)) =~= Seq::<MsgEntryView>::empty());
                while i < members.len()
                    invariant
                        1 <= i <= members.len(),
                        all == members.deep_view(),
                        entries.deep_view() == start.push(summary) + all.subrange(1, i as int).map_values(
                            member_row(pinned),
                        ),
                    decreases members.len() - i,
                {
                    let ghost before = entries.deep_view();
                    assert(all[i as int] == members[i as int].deep_view());
                    entries.push(
                        MsgEntry::Row {
                            reference: members[i].reference(),
                            time_only: !pinned,
                            pinned,
                            section_end: false,
                            in_group: true,
                        },
                    );
                    assert(entries.deep_view() =~= before.push(row_entry(all[i as int], pinned, true)));
                    assert(all.subrange(1, i + 1).map_values(member_row(pinned)) =~= all.subrange(
                        1,
                        i as int,
                    ).map_values(member_row(pinned)).push(row_entry(all[i as int], pinned, true)));
                    i += 1;
                }
                assert(all.subrange(1, all.len() as int) =~= all.skip(1));
            }
            assert(entries.deep_view() =~= start + item_rows(item.deep_view(), pinned));
        },
    }
}

/// Appends a section.
fn push_section(
    entries: &mut Vec<MsgEntry>,
    key: String,
    label: SectionLabel,
    items: &Vec<&MessageListItem<'_>>,
    pinned: bool,
    collapsed: bool,
)
    requires
        forall|i: int| 0 <= i < items.len() ==> (#[trigger] items[i]).deep_view().valid(),
    ensures
        final(entries).deep_view() == old(entries).deep_view() + section(
            key@,
            label,
            items.deep_view(),
            pinned,
            collapsed,
        ),
{
    let ghost start = entries.deep_view();
    let ghost all = items.deep_view();
    let ghost text = key@;
    entries.push(MsgEntry::Header { key, label, count: items.len(), pinned, collapsed });
    let ghost header = MsgEntryView::Header { key: text, label, count: all.len() as usize, pinned, collapsed };
    assert(entries.deep_view() =~= start.push(header));
    if collapsed {
        assert(entries.deep_view() =~= start + section(text, label, all, pinned, collapsed));
        return;
    }
    let first: usize = entries.len();
    let mut i: usize = 0;
    assert(all.take(0) =~= Seq::<MessageListItemView>::empty());
    while i < items.len()
        invariant
            i <= items.len(),
            all == items.deep_view(),
            first == start.len() + 1,
            forall|i: int| 0 <= i < items.len() ==> (#[trigger] items[i]).deep_view().valid(),
            entries.deep_view() == start.push(header) + rows_of(all.take(i as int), pinned),
        decreases items.len() - i,
    {
        assert(all[i as int] == items[i as int].deep_view());
        assert(all.take(i + 1).drop_last() =~= all.take(i as int));
        push_item(entries, items[i], pinned);
        assert(entries.deep_view() =~= start.push(header) + rows_of(all.take(i + 1), pinned));
        i += 1;
    }
    assert(all.take(all.len() as int) =~= all);
    let ghost rows = rows_of(all, pinned);
    let ghost before = entries.deep_view();
    assert(entries.len() == before.len());
    if entries.len() > first {
        let last: usize = entries.len() - 1;
        assert(before[last as int] == entries[last as int].deep_view());
        let mut entry = entries.pop().unwrap();
        assert(entry.deep_view() == rows.last());
        entry.mark_section_end();
        entries.push(entry);
        assert(entries.deep_view() =~= before.update(last as int, rows.last().closing()));
    }
    assert(entries.deep_view() =~= start + section(text, label, all, pinned, collapsed));
}

/// The items of the pinned section.
fn collect_pinned<'b, 'a>(items: &'b Vec<MessageListItem<'a>>, pins: &Vec<MessageRef>) -> (pinned: Vec<
    &'b MessageListItem<'a>,
>)
    requires
        forall|i: int| 0 <= i < items.len() ==> (#[trigger] items[i]).deep_view().valid(),
    ensures
        pinned.deep_view() == pinned_items(items.deep_view(), pins.deep_view()),
        forall|i: int| 0 <= i < pinned.len() ==> (#[trigger] pinned[i]).deep_view().valid(),
{
    let ghost all = items.deep_view();
    let ghost test = item_is_pinned(pins.deep_view());
    let mut pinned: Vec<&'b MessageListItem<'a>> = Vec::new();
    let mut i: usize = 0;
    assert(all.take(0).filter(test) =~= Seq::<MessageListItemView>::empty()) by {
        reveal(Seq::filter);
    }
    while i < items.len()
        invariant
            i <= items.len(),
            all == items.deep_view(),
            test == item_is_pinned(pins.deep_view()),
            pinned.deep_view() == all.take(i as int).filter(test),
            forall|i: int| 0 <= i < items.len() ==> (#[trigger] items[i]).deep_view().valid(),
            forall|i: int| 0 <= i < pinned.len() ==> (#[trigger] pinned[i]).deep_view().valid(),
        decreases items.len() - i,
    {
        let ghost before = pinned.deep_view();
        assert(all[i as int] == items[i as int].deep_view());
        proof {
            assert(all.take(i + 1).drop_last() =~= all.take(i as int));
            reveal(Seq::filter);
        }
        if in_pinned_section(&items[i], pins) {
            pinned.push(&items[i]);
            assert(pinned.deep_view() =~= before.push(all[i as int]));
        }
        i += 1;
    }
    assert(all.take(all.len() as int) =~= all);
    pinned
}

/// The items of a day.
fn collect_day<'b, 'a>(
    items: &'b Vec<MessageListItem<'a>>,
    days: &Vec<i32>,
    pins: &Vec<MessageRef>,
    day: i32,
) -> (chosen: Vec<&'b MessageListItem<'a>>)
    requires
        items.len() == days.len(),
        forall|i: int| 0 <= i < items.len() ==> (#[trigger] items[i]).deep_view().valid(),
    ensures
        chosen.deep_view() == day_items(items.deep_view(), days@, pins.deep_view(), day),
        forall|i: int| 0 <= i < chosen.len() ==> (#[trigger] chosen[i]).deep_view().valid(),
{
    let ghost all = items.deep_view();
    let mut chosen: Vec<&'b MessageListItem<'a>> = Vec::new();
    let mut i: usize = 0;
    while i < items.len()
        invariant
            i <= items.len(),
            items.len() == days.len(),
            all == items.deep_view(),
            chosen.deep_view() == day_items(all.take(i as int), days@.take(i as int), pins.deep_view(), day),
            forall|i: int| 0 <= i < items.len() ==> (#[trigger] items[i]).deep_view().valid(),
            forall|i: int| 0 <= i < chosen.len() ==> (#[trigger] chosen[i]).deep_view().valid(),
        decreases items.len() - i,
    {
        let ghost before = chosen.deep_view();
        assert(all[i as int] == items[i as int].deep_view());
        assert(all.take(i + 1).drop_last() =~= all.take(i as int));
        assert(days@.take(i + 1).drop_last() =~= days@.take(i as int));
        if !in_pinned_section(&items[i], pins) && days[i] == day {
            chosen.push(&items[i]);
            assert(chosen.deep_view() =~= before.push(all[i as int]));
        }
        i += 1;
    }
    assert(all.take(all.len() as int) =~= all);
    assert(days@.take(days@.len() as int) =~= days@);
    chosen
}

/// The days that have a section, newest first.
fn collect_days(items: &Vec<MessageListItem<'_>>, days: &Vec<i32>, pins: &Vec<MessageRef>) -> (shown: Vec<i32>)
    requires
        items.len() == days.len(),
    ensures
        shown@ == section_days(items.deep_view(), days@, pins.deep_view()),
{
    let ghost all = items.deep_view();
    let mut found: Vec<i32> = Vec::new();
    let mut i: usize = 0;
    while i < items.len()
        invariant
            i <= items.len(),
            items.len() == days.len(),
            all == items.deep_view(),
            found@ == distinct(loose_days(all.take(i as int), days@.take(i as int), pins.deep_view())),
        decreases items.len() - i,
    {
        assert(all[i as int] == items[i as int].deep_view());
        assert(all.take(i + 1).drop_last() =~= all.take(i as int));
        assert(days@.take(i + 1).drop_last() =~= days@.take(i as int));
        let ghost before = loose_days(all.take(i as int), days@.take(i as int), pins.deep_view());
        assert(before.push(days[i as int]).drop_last() =~= before);
        if !in_pinned_section(&items[i], pins) {
            let day: i32 = days[i];
            let mut known = false;
            let mut j: usize = 0;
            while j < found.len()
                invariant
                    j <= found.len(),
                    known == exists|k: int| 0 <= k < j && found[k] == day,
                decreases found.len() - j,
            {
                if found[j] == day {
                    known = true;
                }
                j += 1;
            }
            assert(known == found@.contains(day));
            if !known {
                found.push(day);
            }
        }
        i += 1;
    }
    assert(all.take(all.len() as int) =~= all);
    assert(days@.take(days@.len() as int) =~= days@);
    let ghost unsorted = found@;
    assert(found.deep_view() =~= found@);
    let shown = crate::lists::sort_stable(
        found,
        |a: &i32, b: &i32| -> (le: bool)
            ensures
                le == (*a >= *b)
            { *a >= *b },
        Ghost(later_first()),
    );
    assert(shown.deep_view() =~= shown@);
    shown
}

/// Flattens grouped items into the sections and rows of the list.
///
/// `days` holds, for each item, the local calendar day of the message that dates it.
pub fn build_list_entries(
    items: &Vec<MessageListItem<'_>>,
    days: &Vec<i32>,
    collapsed_sections: &Vec<String>,
    pins: &Vec<MessageRef>,
) -> (entries: Vec<MsgEntry>)
    requires
        items.len() == days.len(),
        forall|i: int| 0 <= i < items.len() ==> (#[trigger] items[i]).deep_view().valid(),
        forall|i: int| 0 <= i < days.len() ==> valid_day(#[trigger] days[i]),
    ensures
        entries.deep_view() == list_entries(
            items.deep_view(),
            days@,
            pins.deep_view(),
            collapsed_sections.deep_view(),
        ),
{
    let ghost all = items.deep_view();
    let mut entries: Vec<MsgEntry> = Vec::new();
    let pinned = collect_pinned(items, pins);
    assert(pinned.deep_view().len() == pinned.len());
    if pinned.len() > 0 {
        let key = "pinned".to_owned();
        let collapsed = holds_text(collapsed_sections, &key);
        push_section(&mut entries, key, SectionLabel::Pinned, &pinned, true, collapsed);
    }
    assert(entries.deep_view() =~= pinned_section(all, pins.deep_view(), collapsed_sections.deep_view()));
    let ghost start = entries.deep_view();
    let shown = collect_days(items, days, pins);
    proof {
        lemma_section_days(all, days@, pins.deep_view());
    }
    let mut i: usize = 0;
    assert(start + day_sections(all, days@, pins.deep_view(), collapsed_sections.deep_view(), shown@.take(0))
        =~= start);
    while i < shown.len()
        invariant
            i <= shown.len(),
            all == items.deep_view(),
            items.len() == days.len(),
            forall|i: int| 0 <= i < items.len() ==> (#[trigger] items[i]).deep_view().valid(),
            forall|i: int| 0 <= i < days.len() ==> valid_day(#[trigger] days[i]),
            forall|k: int| 0 <= k < shown.len() ==> days@.contains(#[trigger] shown[k]),
            entries.deep_view() == start + day_sections(
                all,
                days@,
                pins.deep_view(),
                collapsed_sections.deep_view(),
                shown@.take(i as int),
            ),
        decreases shown.len() - i,
    {
        let day: i32 = shown[i];
        assert(valid_day(day)) by {
            assert(days@.contains(shown[i as int]));
        }
        assert(shown@.take(i + 1).drop_last() =~= shown@.take(i as int));
        let key = "day:".to_owned().concat(&print_day(day));
        let collapsed = holds_text(collapsed_sections, &key);
        let chosen = collect_day(items, days, pins, day);
        let ghost before = day_sections(
            all,
            days@,
            pins.deep_view(),
            collapsed_sections.deep_view(),
            shown@.take(i as int),
        );
        push_section(&mut entries, key, SectionLabel::Day(day), &chosen, false, collapsed);
        assert(entries.deep_view() =~= start + day_sections(
            all,
            days@,
            pins.deep_view(),
            collapsed_sections.deep_view(),
            shown@.take(i + 1),
        ));
        i += 1;
    }
    assert(shown@.take(shown@.len() as int) =~= shown@);
    entries
}

/// Each day with a section is the day of an item that is not pinned, no day has
/// two sections, and newer days come first.
pub proof fn lemma_section_days(items: Seq<MessageListItemView>, days: Seq<i32>, pins: Seq<MessageRefView>)
    requires
        items.len() == days.len(),
    ensures
        section_days(items, days, pins).no_duplicates(),
        forall|day: i32|
            #![trigger section_days(items, days, pins).contains(day)]
            section_days(items, days, pins).contains(day) <==> exists|i: int|
                0 <= i < items.len() && !(#[trigger] items[i]).pinned(pins) && days[i] == day,
        forall|k: int|
            0 <= k < section_days(items, days, pins).len() ==> days.contains(
                #[trigger] section_days(items, days, pins)[k],
            ),
        ordered(section_days(items, days, pins), later_first()),
{
    let loose = loose_days(items, days, pins);
    let shown = section_days(items, days, pins);
    lemma_loose_days(items, days, pins);
    crate::lists::lemma_distinct(loose);
    crate::lists::lemma_stable_sort(distinct(loose), later_first());
    assert(ranks(later_first())) by {
        assert forall|a: i32, b: i32| #![trigger later_first()(a, b)] later_first()(a, b) || later_first()(b, a) by {}
    }
    distinct(loose).lemma_multiset_has_no_duplicates();
    assert(shown.no_duplicates()) by {
        shown.lemma_multiset_has_no_duplicates_conv();
    }
    assert forall|day: i32| #![trigger shown.contains(day)] shown.contains(day) <==> loose.contains(day) by {
        broadcast use vstd::seq_lib::to_multiset_contains;

        assert(shown.to_multiset().count(day) > 0 <==> distinct(loose).to_multiset().count(day) > 0);
        assert(distinct(loose).contains(day) <==> loose.contains(day));
    }
    assert forall|k: int| 0 <= k < shown.len() implies days.contains(#[trigger] shown[k]) by {
        assert(shown.contains(shown[k]));
        let i = choose|i: int| 0 <= i < items.len() && !(#[trigger] items[i]).pinned(pins) && days[i] == shown[k];
        assert(days[i] == shown[k]);
    }
}

proof fn lemma_loose_days(items: Seq<MessageListItemView>, days: Seq<i32>, pins: Seq<MessageRefView>)
    requires
        items.len() == days.len(),
    ensures
        forall|day: i32|
            #![trigger loose_days(items, days, pins).contains(day)]
            loose_days(items, days, pins).contains(day) <==> exists|i: int|
                0 <= i < items.len() && !(#[trigger] items[i]).pinned(pins) && days[i] == day,
    decreases items.len(),
{
    if items.len() > 0 {
        let n = items.len() - 1;
        let init = items.drop_last();
        let init_days = days.drop_last();
        lemma_loose_days(init, init_days, pins);
        let before = loose_days(init, init_days, pins);
        assert forall|day: i32|
            #![trigger loose_days(items, days, pins).contains(day)]
            loose_days(items, days, pins).contains(day) <==> exists|i: int|
                0 <= i < items.len() && !(#[trigger] items[i]).pinned(pins) && days[i] == day by {
            crate::message_list::lemma_contains_push(before, days.last(), day);
            assert(before.contains(day) || !before.contains(day));
            if exists|i: int| 0 <= i < items.len() && !(#[trigger] items[i]).pinned(pins) && days[i] == day {
                let i = choose|i: int| 0 <= i < items.len() && !(#[trigger] items[i]).pinned(pins) && days[i] == day;
                if i < n {
                    assert(init[i] == items[i] && init_days[i] == days[i]);
                }
            }
            if before.contains(day) {
                let i = choose|i: int|
                    0 <= i < init.len() && !(#[trigger] init[i]).pinned(pins) && init_days[i] == day;
                assert(items[i] == init[i] && days[i] == init_days[i]);
            }
            if !items.last().pinned(pins) && days.last() == day {
                assert(items[n] == items.last());
            }
        }
    }
}

} // verus!
