//! Under which section of the list a message stands: the pinned ones under their own, every
//! other one under the day of the message that dates it.
use crate::dates::{day_text, is_local_day};
use crate::list_entries::{
    close_last, day_items, day_key, day_sections, item_rows, lemma_section_days, list_entries, pinned_items, pinned_key,
    pinned_section, rows_of, section, section_days,
};
use crate::message_list::{MessageListItemView, MsgEntryView, SectionLabel};
use crate::model::MessageRefView;
use crate::state::AviaryApp;
use vstd::prelude::*;

verus! {

/// Whether an entry shows one of the messages of an item.
pub open spec fn shows_one_of(entry: MsgEntryView, item: MessageListItemView) -> bool {
    exists|m: int|
        0 <= m < item.messages().len() && entry.message() == Some((#[trigger] item.messages()[m]).reference())
}

/// Whether an entry is the header of a section.
pub open spec fn heads(entry: MsgEntryView, key: Seq<char>, label: SectionLabel, pinned: bool) -> bool {
    match entry {
        MsgEntryView::Header { key: own_key, label: own_label, pinned: own_pinned, .. } => own_key == key && own_label
            == label && own_pinned == pinned,
        _ => false,
    }
}

/// Whether the nearest header above an entry is the given one.
pub open spec fn under(
    entries: Seq<MsgEntryView>,
    e: int,
    key: Seq<char>,
    label: SectionLabel,
    pinned: bool,
) -> bool {
    exists|h: int|
        0 <= h <= e && heads(#[trigger] entries[h], key, label, pinned) && forall|j: int|
            h < j <= e ==> !(#[trigger] entries[j] is Header)
}

/// Whether an entry shows a message of an item and stands under the header that the item
/// belongs to: that of the pinned ones, or that of its day.
pub open spec fn filed(
    entries: Seq<MsgEntryView>,
    e: int,
    item: MessageListItemView,
    day: i32,
    pins: Seq<MessageRefView>,
) -> bool {
    &&& shows_one_of(entries[e], item)
    &&& if item.pinned(pins) {
        under(entries, e, "pinned"@, SectionLabel::Pinned, true)
    } else {
        under(entries, e, "day:"@ + day_text(day as int), SectionLabel::Day(day), false)
    }
}

/// Whether an entry is filed where one of the items belongs.
pub open spec fn filed_somewhere(
    entries: Seq<MsgEntryView>,
    e: int,
    items: Seq<MessageListItemView>,
    days: Seq<i32>,
    pins: Seq<MessageRefView>,
) -> bool {
    exists|k: int| 0 <= k < items.len() && #[trigger] filed(entries, e, items[k], days[k], pins)
}

proof fn lemma_under_part(
    front: Seq<MsgEntryView>,
    part: Seq<MsgEntryView>,
    back: Seq<MsgEntryView>,
    e: int,
    key: Seq<char>,
    label: SectionLabel,
    pinned: bool,
)
    requires
        0 <= e < part.len(),
        under(part, e, key, label, pinned),
    ensures
        under(front + part + back, front.len() + e, key, label, pinned),
{
    let all = front + part + back;
    let h = choose|h: int|
        0 <= h <= e && heads(#[trigger] part[h], key, label, pinned) && forall|j: int|
            h < j <= e ==> !(#[trigger] part[j] is Header);
    assert(all[front.len() + h] == part[h]);
    assert forall|j: int| front.len() + h < j <= front.len() + e implies !(#[trigger] all[j] is Header) by {
        assert(all[j] == part[j - front.len()]);
    }
}

proof fn lemma_filed_part(
    front: Seq<MsgEntryView>,
    part: Seq<MsgEntryView>,
    back: Seq<MsgEntryView>,
    e: int,
    item: MessageListItemView,
    day: i32,
    pins: Seq<MessageRefView>,
)
    requires
        0 <= e < part.len(),
        filed(part, e, item, day, pins),
    ensures
        filed(front + part + back, front.len() + e, item, day, pins),
{
    let all = front + part + back;
    assert(all[front.len() + e] == part[e]);
    if item.pinned(pins) {
        lemma_under_part(front, part, back, e, "pinned"@, SectionLabel::Pinned, true);
    } else {
        lemma_under_part(front, part, back, e, "day:"@ + day_text(day as int), SectionLabel::Day(day), false);
    }
}

/// Whether every row shows a message of one of the items.
spec fn rows_show(rows: Seq<MsgEntryView>, items: Seq<MessageListItemView>) -> bool {
    forall|e: int| 0 <= e < rows.len() ==> !(#[trigger] rows[e] is Header) && shows_some(rows[e], items)
}

spec fn shows_some(entry: MsgEntryView, items: Seq<MessageListItemView>) -> bool {
    exists|k: int| 0 <= k < items.len() && #[trigger] shows_one_of(entry, items[k])
}

proof fn lemma_item_rows(item: MessageListItemView, pinned: bool)
    requires
        item.valid(),
    ensures
        forall|e: int|
            0 <= e < item_rows(item, pinned).len() ==> !(#[trigger] item_rows(item, pinned)[e] is Header) && shows_one_of(
                item_rows(item, pinned)[e],
                item,
            ),
{
    let rows = item_rows(item, pinned);
    assert forall|e: int| 0 <= e < rows.len() implies !(#[trigger] rows[e] is Header) && shows_one_of(rows[e], item) by {
        assert(rows[e].message() == Some(item.messages()[e].reference()));
    }
}

proof fn lemma_rows_show(items: Seq<MessageListItemView>, pinned: bool)
    requires
        forall|k: int| 0 <= k < items.len() ==> (#[trigger] items[k]).valid(),
    ensures
        rows_show(rows_of(items, pinned), items),
    decreases items.len(),
{
    let rows = rows_of(items, pinned);
    if items.len() > 0 {
        let init = items.drop_last();
        let before = rows_of(init, pinned);
        assert forall|k: int| 0 <= k < init.len() implies (#[trigger] init[k]).valid() by {
            assert(init[k] == items[k]);
        }
        lemma_rows_show(init, pinned);
        lemma_item_rows(items.last(), pinned);
        assert forall|e: int| 0 <= e < rows.len() implies !(#[trigger] rows[e] is Header) && shows_some(rows[e], items) by {
            if e < before.len() {
                assert(before[e] == rows[e]);
                let k = choose|k: int| 0 <= k < init.len() && #[trigger] shows_one_of(before[e], init[k]);
                assert(shows_one_of(rows[e], items[k]));
            } else {
                assert(rows[e] == item_rows(items.last(), pinned)[e - before.len()]);
                assert(shows_one_of(rows[e], items[items.len() - 1]));
            }
        }
    }
}

proof fn lemma_section_show(
    key: Seq<char>,
    label: SectionLabel,
    items: Seq<MessageListItemView>,
    pinned: bool,
    collapsed: bool,
)
    requires
        forall|k: int| 0 <= k < items.len() ==> (#[trigger] items[k]).valid(),
    ensures
        ({
            let part = section(key, label, items, pinned, collapsed);
            &&& part.len() > 0
            &&& heads(part[0], key, label, pinned)
            &&& forall|e: int|
                0 < e < part.len() ==> {
                    &&& !(#[trigger] part[e] is Header)
                    &&& shows_some(part[e], items)
                    &&& under(part, e, key, label, pinned)
                }
        }),
{
    let part = section(key, label, items, pinned, collapsed);
    let rows = rows_of(items, pinned);
    let closed = close_last(rows);
    lemma_rows_show(items, pinned);
    if !collapsed {
        assert forall|e: int| 0 < e < part.len() implies !(#[trigger] part[e] is Header) && shows_some(part[e], items) by {
            assert(part[e] == closed[e - 1]);
            assert(closed[e - 1].message() == rows[e - 1].message());
            let k = choose|k: int| 0 <= k < items.len() && #[trigger] shows_one_of(rows[e - 1], items[k]);
            assert(shows_one_of(part[e], items[k]));
        }
    }
    assert forall|e: int| 0 < e < part.len() implies #[trigger] under(part, e, key, label, pinned) by {
        assert(heads(part[0], key, label, pinned));
    }
}

proof fn lemma_day_items_origin(
    items: Seq<MessageListItemView>,
    days: Seq<i32>,
    pins: Seq<MessageRefView>,
    day: i32,
)
    requires
        items.len() == days.len(),
    ensures
        forall|i: int|
            0 <= i < day_items(items, days, pins, day).len() ==> exists|k: int|
                0 <= k < items.len() && #[trigger] items[k] == #[trigger] day_items(items, days, pins, day)[i]
                    && !items[k].pinned(pins) && days[k] == day,
    decreases items.len(),
{
    if items.len() > 0 {
        let init = items.drop_last();
        let chosen = day_items(items, days, pins, day);
        let before = day_items(init, days.drop_last(), pins, day);
        lemma_day_items_origin(init, days.drop_last(), pins, day);
        assert forall|i: int| 0 <= i < chosen.len() implies exists|k: int|
            0 <= k < items.len() && #[trigger] items[k] == #[trigger] chosen[i] && !items[k].pinned(pins) && days[k]
                == day by {
            if i < before.len() {
                assert(chosen[i] == before[i]);
                let k = choose|k: int|
                    0 <= k < init.len() && #[trigger] init[k] == before[i] && !init[k].pinned(pins)
                        && days.drop_last()[k] == day;
                assert(items[k] == chosen[i]);
            } else {
                assert(items[items.len() - 1] == chosen[i]);
            }
        }
    }
}

/// What heads a section: the key and the label of the pinned ones or of a day.
pub open spec fn header_of(entry: MsgEntryView, days: Seq<i32>) -> bool {
    ||| heads(entry, "pinned"@, SectionLabel::Pinned, true)
    ||| exists|k: int|
        0 <= k < days.len() && heads(
            entry,
            "day:"@ + day_text(#[trigger] days[k] as int),
            SectionLabel::Day(days[k]),
            false,
        )
}

proof fn lemma_days_filed(
    items: Seq<MessageListItemView>,
    days: Seq<i32>,
    pins: Seq<MessageRefView>,
    collapsed: Seq<Seq<char>>,
    shown: Seq<i32>,
)
    requires
        items.len() == days.len(),
        forall|k: int| 0 <= k < items.len() ==> (#[trigger] items[k]).valid(),
    ensures
        ({
            let all = day_sections(items, days, pins, collapsed, shown);
            &&& forall|e: int|
                0 <= e < all.len() && !(#[trigger] all[e] is Header) ==> filed_somewhere(all, e, items, days, pins)
            &&& forall|e: int| 0 <= e < all.len() && #[trigger] all[e] is Header ==> header_of(all[e], shown)
            &&& forall|i: int| 0 <= i < shown.len() ==> has_header(all, #[trigger] shown[i])
        }),
    decreases shown.len(),
{
    if shown.len() > 0 {
        let rest = shown.drop_last();
        let day = shown.last();
        let chosen = day_items(items, days, pins, day);
        let all = day_sections(items, days, pins, collapsed, shown);
        let a = day_sections(items, days, pins, collapsed, rest);
        let b = section(day_key(day), SectionLabel::Day(day), chosen, false, collapsed.contains(day_key(day)));
        let none = Seq::<MsgEntryView>::empty();
        lemma_days_filed(items, days, pins, collapsed, rest);
        lemma_day_items_origin(items, days, pins, day);
        assert forall|i: int| 0 <= i < chosen.len() implies (#[trigger] chosen[i]).valid() by {
            let k = choose|k: int|
                0 <= k < items.len() && #[trigger] items[k] == chosen[i] && !items[k].pinned(pins) && days[k] == day;
        }
        lemma_section_show(day_key(day), SectionLabel::Day(day), chosen, false, collapsed.contains(day_key(day)));
        assert(none + a + b =~= all);
        assert(a + b + none =~= all);
        assert forall|e: int| 0 <= e < all.len() && !(#[trigger] all[e] is Header) implies filed_somewhere(
            all,
            e,
            items,
            days,
            pins,
        ) by {
            if e < a.len() {
                assert(a[e] == all[e]);
                let k = choose|k: int| 0 <= k < items.len() && #[trigger] filed(a, e, items[k], days[k], pins);
                lemma_filed_part(none, a, b, e, items[k], days[k], pins);
            } else {
                let r = e - a.len();
                assert(b[r] == all[e]);
                let i = choose|i: int| 0 <= i < chosen.len() && #[trigger] shows_one_of(b[r], chosen[i]);
                let k = choose|k: int|
                    0 <= k < items.len() && #[trigger] items[k] == chosen[i] && !items[k].pinned(pins) && days[k]
                        == day;
                assert(filed(b, r, items[k], days[k], pins));
                lemma_filed_part(a, b, none, r, items[k], days[k], pins);
            }
        }
        assert forall|e: int| 0 <= e < all.len() && #[trigger] all[e] is Header implies header_of(all[e], shown) by {
            if e < a.len() {
                assert(a[e] == all[e]);
                if !heads(all[e], "pinned"@, SectionLabel::Pinned, true) {
                    let k = choose|k: int|
                        0 <= k < rest.len() && heads(
                            a[e],
                            "day:"@ + day_text(#[trigger] rest[k] as int),
                            SectionLabel::Day(rest[k]),
                            false,
                        );
                    assert(shown[k] == rest[k]);
                }
            } else {
                assert(b[e - a.len()] == all[e]);
                assert(shown[shown.len() - 1] == day);
            }
        }
        assert forall|i: int| 0 <= i < shown.len() implies has_header(all, #[trigger] shown[i]) by {
            if i < rest.len() {
                assert(rest[i] == shown[i]);
                let h = choose|h: int|
                    0 <= h < a.len() && heads(
                        #[trigger] a[h],
                        "day:"@ + day_text(rest[i] as int),
                        SectionLabel::Day(rest[i]),
                        false,
                    );
                assert(all[h] == a[h]);
            } else {
                assert(all[a.len() as int] == b[0]);
            }
        }
    }
}

/// Whether a day has a header in the list.
pub open spec fn has_header(entries: Seq<MsgEntryView>, day: i32) -> bool {
    exists|h: int|
        0 <= h < entries.len() && heads(
            #[trigger] entries[h],
            "day:"@ + day_text(day as int),
            SectionLabel::Day(day),
            false,
        )
}

/// Every row shows a message of an item and stands under the header of that item: under
/// that of the pinned ones where the item is pinned, and otherwise under that of its day.
/// There is no header but for the pinned ones and for the days of the items, and the day of
/// every item that is not pinned has one.
pub proof fn law_messages_stand_under_their_day(
    items: Seq<MessageListItemView>,
    days: Seq<i32>,
    pins: Seq<MessageRefView>,
    collapsed: Seq<Seq<char>>,
)
    requires
        items.len() == days.len(),
        forall|k: int| 0 <= k < items.len() ==> (#[trigger] items[k]).valid(),
    ensures
        ({
            let all = list_entries(items, days, pins, collapsed);
            &&& forall|e: int|
                0 <= e < all.len() && !(#[trigger] all[e] is Header) ==> filed_somewhere(all, e, items, days, pins)
            &&& forall|e: int| 0 <= e < all.len() && #[trigger] all[e] is Header ==> header_of(all[e], days)
            &&& forall|k: int|
                0 <= k < items.len() && !(#[trigger] items[k]).pinned(pins) ==> has_header(all, days[k])
        }),
{
    let all = list_entries(items, days, pins, collapsed);
    let shown = section_days(items, days, pins);
    let pinned = pinned_items(items, pins);
    let a = pinned_section(items, pins, collapsed);
    let b = day_sections(items, days, pins, collapsed, shown);
    let none = Seq::<MsgEntryView>::empty();
    let is_pinned = crate::list_entries::item_is_pinned(pins);
    lemma_section_days(items, days, pins);
    lemma_days_filed(items, days, pins, collapsed, shown);
    assert forall|i: int| 0 <= i < pinned.len() implies (#[trigger] pinned[i]).valid() && pinned[i].pinned(pins)
        && items.contains(pinned[i]) by {
        items.lemma_filter_pred(is_pinned, i);
        items.lemma_filter_contains_rev(is_pinned, pinned[i]);
    }
    lemma_section_show(pinned_key(), SectionLabel::Pinned, pinned, true, collapsed.contains(pinned_key()));
    assert(none + a + b =~= all);
    assert(a + b + none =~= all);
    assert forall|e: int| 0 <= e < all.len() && !(#[trigger] all[e] is Header) implies filed_somewhere(
        all,
        e,
        items,
        days,
        pins,
    ) by {
        if e < a.len() {
            assert(a[e] == all[e]);
            let i = choose|i: int| 0 <= i < pinned.len() && #[trigger] shows_one_of(a[e], pinned[i]);
            let k = choose|k: int| 0 <= k < items.len() && items[k] == pinned[i];
            assert(filed(a, e, items[k], days[k], pins));
            lemma_filed_part(none, a, b, e, items[k], days[k], pins);
        } else {
            let r = e - a.len();
            assert(b[r] == all[e]);
            let k = choose|k: int| 0 <= k < items.len() && #[trigger] filed(b, r, items[k], days[k], pins);
            lemma_filed_part(a, b, none, r, items[k], days[k], pins);
        }
    }
    assert forall|e: int| 0 <= e < all.len() && #[trigger] all[e] is Header implies header_of(all[e], days) by {
        if e < a.len() {
            assert(a[e] == all[e]);
        } else {
            assert(b[e - a.len()] == all[e]);
            if !heads(all[e], "pinned"@, SectionLabel::Pinned, true) {
                let i = choose|i: int|
                    0 <= i < shown.len() && heads(
                        all[e],
                        "day:"@ + day_text(#[trigger] shown[i] as int),
                        SectionLabel::Day(shown[i]),
                        false,
                    );
                assert(days.contains(shown[i]));
                let k = choose|k: int| 0 <= k < days.len() && days[k] == shown[i];
                assert(days[k] == shown[i]);
            }
        }
    }
    assert forall|k: int| 0 <= k < items.len() && !(#[trigger] items[k]).pinned(pins) implies has_header(all, days[k]) by {
        assert(shown.contains(days[k]));
        let i = choose|i: int| 0 <= i < shown.len() && shown[i] == days[k];
        assert(has_header(b, shown[i]));
        let h = choose|h: int|
            0 <= h < b.len() && heads(
                #[trigger] b[h],
                "day:"@ + day_text(days[k] as int),
                SectionLabel::Day(days[k]),
                false,
            );
        assert(all[a.len() + h] == b[h]);
    }
}

impl AviaryApp {
    /// Whether an entry shows a message of an item of the list and stands where the item
    /// belongs, by the day that the zone of the machine gives for its newest message.
    pub open spec fn filed_by_local_day(self, entries: Seq<MsgEntryView>, e: int) -> bool {
        exists|k: int, day: i32|
            0 <= k < self.items(self.filtered()).len() && is_local_day(
                (#[trigger] self.items(self.filtered())[k]).messages()[0].received,
                day,
            ) && #[trigger] filed(entries, e, self.items(self.filtered())[k], day, self.pins_of(self.filtered()))
    }

    /// The list dates every message by the zone of the machine: a row that is not pinned
    /// stands under the day that the zone gives for the instant at which the newest message
    /// of its conversation was received, and that day's header is there even where its
    /// section is collapsed.
    pub proof fn law_messages_are_filed_by_local_day(self, entries: Seq<MsgEntryView>, days: Seq<i32>)
        requires
            self.listed_as(entries, days),
            self.dated(),
            self.filtered().len() <= usize::MAX,
        ensures
            forall|e: int|
                0 <= e < entries.len() && !(#[trigger] entries[e] is Header) ==> self.filed_by_local_day(entries, e),
            forall|k: int|
                0 <= k < self.items(self.filtered()).len() && !(#[trigger] self.items(self.filtered())[k]).pinned(
                    self.pins_of(self.filtered()),
                ) ==> exists|day: i32|
                    is_local_day(self.items(self.filtered())[k].messages()[0].received, day) && #[trigger] has_header(
                        entries,
                        day,
                    ),
    {
        let items = self.items(self.filtered());
        let pins = self.pins_of(self.filtered());
        self.lemma_items_valid();
        law_messages_stand_under_their_day(items, days, pins, self.mailbox.folds.collapsed_sections.deep_view());
        assert forall|e: int| 0 <= e < entries.len() && !(#[trigger] entries[e] is Header) implies self.filed_by_local_day(
            entries,
            e,
        ) by {
            let k = choose|k: int| 0 <= k < items.len() && #[trigger] filed(entries, e, items[k], days[k], pins);
            assert(is_local_day(items[k].messages()[0].received, days[k]));
        }
        assert forall|k: int| 0 <= k < items.len() && !(#[trigger] items[k]).pinned(pins) implies exists|day: i32|
            is_local_day(items[k].messages()[0].received, day) && #[trigger] has_header(entries, day) by {
            assert(is_local_day(items[k].messages()[0].received, days[k]));
            assert(has_header(entries, days[k]));
        }
    }
}

} // verus!
