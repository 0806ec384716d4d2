//! What holds of the message list as a whole: a message is in one item, and
//! produces one row.
use crate::list_entries::{
    close_last, day_items, day_key, day_sections, item_rows, lemma_section_days, list_entries, member_row, pinned_items,
    pinned_key, pinned_section, row_entry, rows_of, section, section_days,
};
use crate::message_list::{
    grouped_items, in_conversation, item_at, members_of, MessageListItemView, MsgEntryView, SectionLabel,
};
use crate::model::{MessageHeaderView, MessageRefView};
use vstd::multiset::Multiset;
use vstd::prelude::*;

verus! {

/// The messages that entries show, one for each row.
pub open spec fn shown_messages(entries: Seq<MsgEntryView>) -> Seq<MessageRefView>
    decreases entries.len(),
{
    if entries.len() == 0 {
        Seq::empty()
    } else {
        let before = shown_messages(entries.drop_last());
        match entries.last().message() {
            Some(message) => before.push(message),
            None => before,
        }
    }
}

/// The names of messages.
pub open spec fn references(messages: Seq<MessageHeaderView>) -> Seq<MessageRefView> {
    messages.map_values(|message: MessageHeaderView| message.reference())
}

/// The messages that an item shows: all of them, or the newest one of a
/// conversation that is not expanded.
pub open spec fn item_messages(item: MessageListItemView) -> Seq<MessageRefView> {
    match item {
        MessageListItemView::Single(message) => seq![message.reference()],
        MessageListItemView::Group { members, row } => if row.expanded {
            references(members)
        } else {
            seq![members[0].reference()]
        },
    }
}

/// How often each message is shown by the items.
pub open spec fn items_shown(items: Seq<MessageListItemView>) -> Multiset<MessageRefView>
    decreases items.len(),
{
    if items.len() == 0 {
        Multiset::empty()
    } else {
        items_shown(items.drop_last()).add(item_messages(items.last()).to_multiset())
    }
}

/// How often each message is held by the items.
pub open spec fn items_held(items: Seq<MessageListItemView>) -> Multiset<MessageRefView>
    decreases items.len(),
{
    if items.len() == 0 {
        Multiset::empty()
    } else {
        items_held(items.drop_last()).add(references(items.last().messages()).to_multiset())
    }
}

/// The references of the headers at positions below `n` that satisfy `p`.
pub open spec fn picked(headers: Seq<MessageHeaderView>, p: spec_fn(int) -> bool, n: int) -> Multiset<MessageRefView>
    decreases n,
{
    if n <= 0 {
        Multiset::empty()
    } else if p(n - 1) {
        picked(headers, p, n - 1).insert(headers[n - 1].reference())
    } else {
        picked(headers, p, n - 1)
    }
}

/// Every item of the list is a conversation that is expanded, or a lone message.
pub open spec fn all_expanded(items: Seq<MessageListItemView>) -> bool {
    forall|i: int|
        0 <= i < items.len() ==> match #[trigger] items[i] {
            MessageListItemView::Single(_) => true,
            MessageListItemView::Group { row, .. } => row.expanded,
        }
}

/// Every item of the list holds a message.
pub open spec fn all_valid(items: Seq<MessageListItemView>) -> bool {
    forall|i: int| 0 <= i < items.len() ==> (#[trigger] items[i]).valid()
}

proof fn lemma_shown_concat(a: Seq<MsgEntryView>, b: Seq<MsgEntryView>)
    ensures
        shown_messages(a + b) == shown_messages(a) + shown_messages(b),
    decreases b.len(),
{
    if b.len() == 0 {
        assert(a + b =~= a);
        assert(shown_messages(a) + shown_messages(b) =~= shown_messages(a));
    } else {
        lemma_shown_concat(a, b.drop_last());
        assert((a + b).drop_last() =~= a + b.drop_last());
        assert((a + b).last() == b.last());
        assert(shown_messages(a + b) =~= shown_messages(a) + shown_messages(b));
    }
}

proof fn lemma_shown_close_last(rows: Seq<MsgEntryView>)
    ensures
        shown_messages(close_last(rows)) == shown_messages(rows),
{
    if rows.len() > 0 {
        assert(close_last(rows).drop_last() =~= rows.drop_last());
        assert(close_last(rows).last() == rows.last().closing());
    }
}

proof fn lemma_shown_members(members: Seq<MessageHeaderView>, pinned: bool)
    ensures
        shown_messages(members.map_values(member_row(pinned))) == references(members),
    decreases members.len(),
{
    let rows = members.map_values(member_row(pinned));
    if members.len() == 0 {
        assert(shown_messages(rows) =~= references(members));
    } else {
        lemma_shown_members(members.drop_last(), pinned);
        assert(rows.drop_last() =~= members.drop_last().map_values(member_row(pinned)));
        assert(references(members) =~= references(members.drop_last()).push(members.last().reference()));
    }
}

proof fn lemma_shown_item(item: MessageListItemView, pinned: bool)
    requires
        item.valid(),
    ensures
        shown_messages(item_rows(item, pinned)) == item_messages(item),
{
    match item {
        MessageListItemView::Single(message) => {
            let rows = seq![row_entry(message, pinned, false)];
            reveal_with_fuel(shown_messages, 2);
            assert(rows.drop_last() =~= Seq::<MsgEntryView>::empty());
            assert(shown_messages(rows) =~= seq![message.reference()]);
        },
        MessageListItemView::Group { members, row } => {
            let summary = MsgEntryView::Group {
                reference: members[0].reference(),
                group: row,
                time_only: !pinned,
                pinned,
                section_end: false,
            };
            let head = seq![summary];
            reveal_with_fuel(shown_messages, 2);
            assert(head.drop_last() =~= Seq::<MsgEntryView>::empty());
            assert(shown_messages(head) =~= seq![members[0].reference()]);
            if row.expanded {
                let rest = members.skip(1);
                lemma_shown_members(rest, pinned);
                lemma_shown_concat(head, rest.map_values(member_row(pinned)));
                assert(references(members) =~= seq![members[0].reference()] + references(rest));
            }
        },
    }
}

proof fn lemma_shown_rows(items: Seq<MessageListItemView>, pinned: bool)
    requires
        all_valid(items),
    ensures
        shown_messages(rows_of(items, pinned)).to_multiset() == items_shown(items),
    decreases items.len(),
{
    broadcast use vstd::seq_lib::group_to_multiset_ensures;

    if items.len() == 0 {
        assert(shown_messages(rows_of(items, pinned)).to_multiset() =~= items_shown(items));
    } else {
        let init = items.drop_last();
        assert(all_valid(init)) by {
            assert forall|i: int| 0 <= i < init.len() implies (#[trigger] init[i]).valid() by {
                assert(items[i].valid());
            }
        }
        lemma_shown_rows(init, pinned);
        assert(items[items.len() - 1].valid());
        lemma_shown_item(items.last(), pinned);
        let a = rows_of(init, pinned);
        let b = item_rows(items.last(), pinned);
        lemma_shown_concat(a, b);
        vstd::seq_lib::lemma_multiset_commutative(shown_messages(a), shown_messages(b));
    }
}

proof fn lemma_shown_section(
    key: Seq<char>,
    label: SectionLabel,
    items: Seq<MessageListItemView>,
    pinned: bool,
    collapsed: bool,
)
    requires
        all_valid(items),
    ensures
        collapsed ==> shown_messages(section(key, label, items, pinned, collapsed)).len() == 0,
        !collapsed ==> shown_messages(section(key, label, items, pinned, collapsed)).to_multiset() == items_shown(
            items,
        ),
{
    let header = MsgEntryView::Header { key, label, count: items.len() as usize, pinned, collapsed };
    let head = seq![header];
    reveal_with_fuel(shown_messages, 2);
    assert(head.drop_last() =~= Seq::<MsgEntryView>::empty());
    assert(shown_messages(head) =~= Seq::<MessageRefView>::empty());
    let rows = rows_of(items, pinned);
    lemma_shown_rows(items, pinned);
    lemma_shown_close_last(rows);
    lemma_shown_concat(head, close_last(rows));
    assert(Seq::<MessageRefView>::empty() + shown_messages(rows) =~= shown_messages(rows));
}

proof fn lemma_day_items_valid(
    items: Seq<MessageListItemView>,
    days: Seq<i32>,
    pins: Seq<MessageRefView>,
    day: i32,
)
    requires
        items.len() == days.len(),
        all_valid(items),
    ensures
        all_valid(day_items(items, days, pins, day)),
    decreases items.len(),
{
    if items.len() > 0 {
        let init = items.drop_last();
        assert(all_valid(init)) by {
            assert forall|i: int| 0 <= i < init.len() implies (#[trigger] init[i]).valid() by {
                assert(items[i].valid());
            }
        }
        lemma_day_items_valid(init, days.drop_last(), pins, day);
        assert(items[items.len() - 1].valid());
    }
}

proof fn lemma_pinned_items_valid(items: Seq<MessageListItemView>, pins: Seq<MessageRefView>)
    requires
        all_valid(items),
    ensures
        all_valid(pinned_items(items, pins)),
    decreases items.len(),
{
    reveal(Seq::filter);
    if items.len() > 0 {
        let init = items.drop_last();
        assert(all_valid(init)) by {
            assert forall|i: int| 0 <= i < init.len() implies (#[trigger] init[i]).valid() by {
                assert(items[i].valid());
            }
        }
        lemma_pinned_items_valid(init, pins);
        assert(items[items.len() - 1].valid());
    }
}

/// How often each message is shown by the items of the given days.
spec fn days_shown(
    items: Seq<MessageListItemView>,
    days: Seq<i32>,
    pins: Seq<MessageRefView>,
    shown: Seq<i32>,
) -> Multiset<MessageRefView>
    decreases shown.len(),
{
    if shown.len() == 0 {
        Multiset::empty()
    } else {
        days_shown(items, days, pins, shown.drop_last()).add(
            items_shown(day_items(items, days, pins, shown.last())),
        )
    }
}

/// One more item adds its messages to the day it is dated.
proof fn lemma_days_shown_push(
    items: Seq<MessageListItemView>,
    days: Seq<i32>,
    pins: Seq<MessageRefView>,
    shown: Seq<i32>,
)
    requires
        items.len() == days.len(),
        items.len() > 0,
        shown.no_duplicates(),
    ensures
        days_shown(items, days, pins, shown) == if !items.last().pinned(pins) && shown.contains(days.last()) {
            days_shown(items.drop_last(), days.drop_last(), pins, shown).add(
                item_messages(items.last()).to_multiset(),
            )
        } else {
            days_shown(items.drop_last(), days.drop_last(), pins, shown)
        },
    decreases shown.len(),
{
    let init = items.drop_last();
    let init_days = days.drop_last();
    if shown.len() > 0 {
        let rest = shown.drop_last();
        assert(rest.no_duplicates());
        lemma_days_shown_push(items, days, pins, rest);
        assert(rest.push(shown.last()) =~= shown);
        crate::message_list::lemma_contains_push(rest, shown.last(), days.last());
        assert(!rest.contains(shown.last())) by {
            if rest.contains(shown.last()) {
                let k = choose|k: int| 0 <= k < rest.len() && rest[k] == shown.last();
                assert(shown[k] == shown[shown.len() - 1]);
            }
        }
        let before = day_items(init, init_days, pins, shown.last());
        if !items.last().pinned(pins) && days.last() == shown.last() {
            assert(before.push(items.last()).drop_last() =~= before);
            assert(items_shown(before.push(items.last())) == items_shown(before).add(
                item_messages(items.last()).to_multiset(),
            ));
        }
        assert(days_shown(items, days, pins, shown) =~= if !items.last().pinned(pins) && shown.contains(days.last()) {
            days_shown(init, init_days, pins, shown).add(item_messages(items.last()).to_multiset())
        } else {
            days_shown(init, init_days, pins, shown)
        });
    }
}

/// The pinned section and the days share the items among them.
proof fn lemma_sections_partition(
    items: Seq<MessageListItemView>,
    days: Seq<i32>,
    pins: Seq<MessageRefView>,
    shown: Seq<i32>,
)
    requires
        items.len() == days.len(),
        shown.no_duplicates(),
        forall|i: int|
            0 <= i < items.len() && !(#[trigger] items[i]).pinned(pins) ==> shown.contains(days[i]),
    ensures
        items_shown(pinned_items(items, pins)).add(days_shown(items, days, pins, shown)) == items_shown(items),
    decreases items.len(),
{
    reveal(Seq::filter);
    if items.len() == 0 {
        lemma_no_days_shown(items, days, pins, shown);
        assert(items_shown(pinned_items(items, pins)).add(days_shown(items, days, pins, shown)) =~= items_shown(
            items,
        ));
    } else {
        let init = items.drop_last();
        let init_days = days.drop_last();
        assert forall|i: int| 0 <= i < init.len() && !(#[trigger] init[i]).pinned(pins) implies shown.contains(
            init_days[i],
        ) by {
            assert(items[i] == init[i]);
        }
        lemma_sections_partition(init, init_days, pins, shown);
        lemma_days_shown_push(items, days, pins, shown);
        assert(items[items.len() - 1] == items.last());
        let before = pinned_items(init, pins);
        if items.last().pinned(pins) {
            assert(before.push(items.last()).drop_last() =~= before);
        }
        assert(items_shown(pinned_items(items, pins)).add(days_shown(items, days, pins, shown)) =~= items_shown(
            items,
        ));
    }
}

proof fn lemma_no_days_shown(
    items: Seq<MessageListItemView>,
    days: Seq<i32>,
    pins: Seq<MessageRefView>,
    shown: Seq<i32>,
)
    requires
        items.len() == 0,
    ensures
        days_shown(items, days, pins, shown) == Multiset::<MessageRefView>::empty(),
    decreases shown.len(),
{
    if shown.len() > 0 {
        lemma_no_days_shown(items, days, pins, shown.drop_last());
        assert(days_shown(items, days, pins, shown) =~= Multiset::<MessageRefView>::empty());
    }
}

/// Whether one of the sections of the given days is collapsed.
pub open spec fn some_collapsed(shown: Seq<i32>, collapsed: Seq<Seq<char>>) -> bool {
    exists|i: int| 0 <= i < shown.len() && collapsed.contains(day_key(#[trigger] shown[i]))
}

proof fn lemma_shown_days(
    items: Seq<MessageListItemView>,
    days: Seq<i32>,
    pins: Seq<MessageRefView>,
    collapsed: Seq<Seq<char>>,
    shown: Seq<i32>,
)
    requires
        items.len() == days.len(),
        all_valid(items),
    ensures
        shown_messages(day_sections(items, days, pins, collapsed, shown)).to_multiset().subset_of(
            days_shown(items, days, pins, shown),
        ),
        !some_collapsed(shown, collapsed) ==> shown_messages(
            day_sections(items, days, pins, collapsed, shown),
        ).to_multiset() == days_shown(items, days, pins, shown),
    decreases shown.len(),
{
    broadcast use vstd::seq_lib::group_to_multiset_ensures;

    if shown.len() == 0 {
        assert(shown_messages(day_sections(items, days, pins, collapsed, shown)).to_multiset() =~= days_shown(
            items,
            days,
            pins,
            shown,
        ));
    } else {
        let rest = shown.drop_last();
        let day = shown.last();
        lemma_shown_days(items, days, pins, collapsed, rest);
        lemma_day_items_valid(items, days, pins, day);
        let hidden = collapsed.contains(day_key(day));
        let chosen = day_items(items, days, pins, day);
        lemma_shown_section(day_key(day), SectionLabel::Day(day), chosen, false, hidden);
        let a = day_sections(items, days, pins, collapsed, rest);
        let b = section(day_key(day), SectionLabel::Day(day), chosen, false, hidden);
        lemma_shown_concat(a, b);
        vstd::seq_lib::lemma_multiset_commutative(shown_messages(a), shown_messages(b));
        if hidden {
            assert(shown_messages(b) =~= Seq::<MessageRefView>::empty());
            assert(collapsed.contains(day_key(shown[shown.len() - 1])));
        }
        if !some_collapsed(shown, collapsed) {
            assert forall|i: int| 0 <= i < rest.len() implies !collapsed.contains(day_key(#[trigger] rest[i])) by {
                assert(rest[i] == shown[i]);
            }
            assert(!collapsed.contains(day_key(shown[shown.len() - 1])));
        }
    }
}

/// No section hides its rows.
pub open spec fn nothing_collapsed(
    items: Seq<MessageListItemView>,
    days: Seq<i32>,
    pins: Seq<MessageRefView>,
    collapsed: Seq<Seq<char>>,
) -> bool {
    !collapsed.contains(pinned_key()) && !some_collapsed(section_days(items, days, pins), collapsed)
}

/// The list shows no message more often than its items do, and exactly as often
/// when no section is collapsed.
pub proof fn law_list_shows_its_items(
    items: Seq<MessageListItemView>,
    days: Seq<i32>,
    pins: Seq<MessageRefView>,
    collapsed: Seq<Seq<char>>,
)
    requires
        items.len() == days.len(),
        all_valid(items),
    ensures
        shown_messages(list_entries(items, days, pins, collapsed)).to_multiset().subset_of(items_shown(items)),
        nothing_collapsed(items, days, pins, collapsed) ==> shown_messages(
            list_entries(items, days, pins, collapsed),
        ).to_multiset() == items_shown(items),
{
    broadcast use vstd::seq_lib::group_to_multiset_ensures;

    let shown = section_days(items, days, pins);
    let pinned = pinned_items(items, pins);
    let hidden = collapsed.contains(pinned_key());
    let a = pinned_section(items, pins, collapsed);
    let b = day_sections(items, days, pins, collapsed, shown);
    lemma_section_days(items, days, pins);
    lemma_shown_days(items, days, pins, collapsed, shown);
    lemma_pinned_items_valid(items, pins);
    lemma_shown_section(pinned_key(), SectionLabel::Pinned, pinned, true, hidden);
    assert forall|i: int| 0 <= i < items.len() && !(#[trigger] items[i]).pinned(pins) implies shown.contains(
        days[i],
    ) by {}
    lemma_sections_partition(items, days, pins, shown);
    lemma_shown_concat(a, b);
    vstd::seq_lib::lemma_multiset_commutative(shown_messages(a), shown_messages(b));
    if pinned.len() == 0 {
        assert(shown_messages(a).to_multiset() =~= items_shown(pinned));
    } else if hidden {
        assert(shown_messages(a) =~= Seq::<MessageRefView>::empty());
    }
    assert(shown_messages(a).to_multiset().subset_of(items_shown(pinned)));
}

proof fn lemma_picked_ext(headers: Seq<MessageHeaderView>, p: spec_fn(int) -> bool, q: spec_fn(int) -> bool, n: int)
    requires
        forall|i: int| 0 <= i < n ==> #[trigger] p(i) == q(i),
    ensures
        picked(headers, p, n) == picked(headers, q, n),
    decreases n,
{
    if n > 0 {
        lemma_picked_ext(headers, p, q, n - 1);
    }
}

proof fn lemma_picked_union(
    headers: Seq<MessageHeaderView>,
    p: spec_fn(int) -> bool,
    q: spec_fn(int) -> bool,
    both: spec_fn(int) -> bool,
    n: int,
)
    requires
        forall|i: int| 0 <= i < n ==> #[trigger] both(i) == (p(i) || q(i)),
        forall|i: int| 0 <= i < n ==> !(#[trigger] p(i) && q(i)),
    ensures
        picked(headers, both, n) == picked(headers, p, n).add(picked(headers, q, n)),
    decreases n,
{
    if n <= 0 {
        assert(picked(headers, both, n) =~= picked(headers, p, n).add(picked(headers, q, n)));
    } else {
        lemma_picked_union(headers, p, q, both, n - 1);
        assert(both(n - 1) == (p(n - 1) || q(n - 1)));
        assert(!(p(n - 1) && q(n - 1)));
        assert(picked(headers, both, n) =~= picked(headers, p, n).add(picked(headers, q, n)));
    }
}

proof fn lemma_picked_one(headers: Seq<MessageHeaderView>, k: int, n: int)
    ensures
        0 <= k < n ==> picked(headers, |i: int| i == k, n) == Multiset::singleton(headers[k].reference()),
        k >= n ==> picked(headers, |i: int| i == k, n) == Multiset::<MessageRefView>::empty(),
    decreases n,
{
    if n > 0 {
        lemma_picked_one(headers, k, n - 1);
        assert(Multiset::<MessageRefView>::empty().insert(headers[k].reference()) =~= Multiset::singleton(
            headers[k].reference(),
        ));
    }
}

proof fn lemma_picked_members(headers: Seq<MessageHeaderView>, key: (Seq<char>, Seq<char>), n: int)
    requires
        0 <= n <= headers.len(),
    ensures
        references(headers.take(n).filter(in_conversation(key))).to_multiset() == picked(
            headers,
            |i: int| headers[i].conversation() == Some(key),
            n,
        ),
    decreases n,
{
    broadcast use vstd::seq_lib::group_to_multiset_ensures;

    reveal(Seq::filter);
    let p = |i: int| headers[i].conversation() == Some(key);
    let front = headers.take(n);
    if n == 0 {
        assert(references(front.filter(in_conversation(key))).to_multiset() =~= picked(headers, p, n));
    } else {
        lemma_picked_members(headers, key, n - 1);
        assert(front.drop_last() =~= headers.take(n - 1));
        let before = headers.take(n - 1).filter(in_conversation(key));
        assert(references(before.push(headers[n - 1])) =~= references(before).push(headers[n - 1].reference()));
    }
}

proof fn lemma_picked_all(headers: Seq<MessageHeaderView>, p: spec_fn(int) -> bool, n: int)
    requires
        0 <= n <= headers.len(),
        forall|i: int| 0 <= i < n ==> #[trigger] p(i),
    ensures
        picked(headers, p, n) == references(headers.take(n)).to_multiset(),
    decreases n,
{
    broadcast use vstd::seq_lib::group_to_multiset_ensures;

    if n == 0 {
        assert(picked(headers, p, n) =~= references(headers.take(n)).to_multiset());
    } else {
        lemma_picked_all(headers, p, n - 1);
        assert(references(headers.take(n)) =~= references(headers.take(n - 1)).push(headers[n - 1].reference()));
    }
}

/// Positions that the items of the first `n` messages account for.
spec fn covered(headers: Seq<MessageHeaderView>, n: int) -> spec_fn(int) -> bool {
    |i: int|
        i < n || match headers[i].conversation() {
            None => false,
            Some(key) => members_of(headers, key).len() >= 2 && headers.take(n).any(in_conversation(key)),
        }
}

proof fn lemma_held(
    headers: Seq<MessageHeaderView>,
    n: int,
    expanded: Seq<(Seq<char>, Seq<char>)>,
    totals: Seq<((Seq<char>, Seq<char>), usize)>,
    pins: Seq<MessageRefView>,
)
    requires
        0 <= n <= headers.len(),
    ensures
        items_held(grouped_items(headers, n, expanded, totals, pins)) == picked(
            headers,
            covered(headers, n),
            headers.len() as int,
        ),
    decreases n,
{
    broadcast use vstd::seq_lib::group_to_multiset_ensures;

    let len = headers.len() as int;
    if n == 0 {
        lemma_picked_none(headers, covered(headers, 0), len);
        assert(headers.take(0) =~= Seq::<MessageHeaderView>::empty());
    } else {
        let k = n - 1;
        lemma_held(headers, k, expanded, totals, pins);
        let before = grouped_items(headers, k, expanded, totals, pins);
        let after = grouped_items(headers, n, expanded, totals, pins);
        let front = headers.take(k);
        assert(headers.take(n) =~= front.push(headers[k]));
        assert forall|key: (Seq<char>, Seq<char>)|
            headers.take(n).any(in_conversation(key)) <==> #[trigger] front.any(in_conversation(key))
                || headers[k].conversation() == Some(key) by {
            crate::message_list::lemma_any_push(front, headers[k], in_conversation(key));
        }
        let old_cover = covered(headers, k);
        let new_cover = covered(headers, n);
        let single = |i: int| i == k;
        match item_at(headers, k, expanded, totals, pins) {
            Some(item) => {
                assert(after == before.push(item));
                assert(after.drop_last() =~= before);
                match item {
                    MessageListItemView::Single(message) => {
                        assert forall|i: int| 0 <= i < len implies #[trigger] new_cover(i) == (old_cover(i) || single(i)) by {
                            assert(headers[i].conversation() is Some ==> (front.any(
                                in_conversation(headers[i].conversation()->0),
                            ) || true));
                        }
                        lemma_picked_union(headers, old_cover, single, new_cover, len);
                        lemma_picked_one(headers, k, len);
                        assert(references(seq![message]) =~= seq![message.reference()]);
                        assert(seq![message.reference()].to_multiset() =~= Multiset::singleton(message.reference()))
                            by {
                            assert(seq![message.reference()] =~= Seq::<MessageRefView>::empty().push(
                                message.reference(),
                            ));
                        }
                    },
                    MessageListItemView::Group { members, row } => {
                        let key = headers[k].conversation()->0;
                        let fresh = |i: int| headers[i].conversation() == Some(key);
                        assert(!front.any(in_conversation(key)));
                        assert forall|i: int| 0 <= i < len implies #[trigger] new_cover(i) == (old_cover(i) || fresh(i)) by {
                            assert(headers[i].conversation() is Some ==> (front.any(
                                in_conversation(headers[i].conversation()->0),
                            ) || true));
                        }
                        assert forall|i: int| 0 <= i < len implies !(#[trigger] old_cover(i) && fresh(i)) by {
                            if i < k && fresh(i) {
                                assert(front[i] == headers[i]);
                                assert(in_conversation(key)(front[i]));
                            }
                        }
                        lemma_picked_union(headers, old_cover, fresh, new_cover, len);
                        lemma_picked_members(headers, key, len);
                        assert(headers.take(len) =~= headers);
                    },
                }
            },
            None => {
                let key = headers[k].conversation()->0;
                assert(front.any(in_conversation(key)));
                assert forall|i: int| 0 <= i < len implies #[trigger] new_cover(i) == old_cover(i) by {
                    assert(headers[i].conversation() is Some ==> (front.any(
                        in_conversation(headers[i].conversation()->0),
                    ) || true));
                }
                lemma_picked_ext(headers, new_cover, old_cover, len);
            },
        }
    }
}

proof fn lemma_picked_none(headers: Seq<MessageHeaderView>, p: spec_fn(int) -> bool, n: int)
    requires
        forall|i: int| 0 <= i < n ==> !#[trigger] p(i),
    ensures
        picked(headers, p, n) == Multiset::<MessageRefView>::empty(),
    decreases n,
{
    if n > 0 {
        lemma_picked_none(headers, p, n - 1);
    }
}

/// Grouping loses no message and repeats none: the items hold each message as
/// often as the headers do.
pub proof fn law_grouping_partitions_the_messages(
    headers: Seq<MessageHeaderView>,
    expanded: Seq<(Seq<char>, Seq<char>)>,
    totals: Seq<((Seq<char>, Seq<char>), usize)>,
    pins: Seq<MessageRefView>,
)
    ensures
        items_held(grouped_items(headers, headers.len() as int, expanded, totals, pins)) == references(
            headers,
        ).to_multiset(),
{
    let len = headers.len() as int;
    lemma_held(headers, len, expanded, totals, pins);
    lemma_picked_all(headers, covered(headers, len), len);
    assert(headers.take(len) =~= headers);
}

/// A conversation that is shown as one has two members or more, all of one
/// account and one thread, and counts no fewer than are loaded.
pub proof fn law_groups_are_conversations(
    headers: Seq<MessageHeaderView>,
    n: int,
    expanded: Seq<(Seq<char>, Seq<char>)>,
    totals: Seq<((Seq<char>, Seq<char>), usize)>,
    pins: Seq<MessageRefView>,
)
    requires
        0 <= n <= headers.len() <= usize::MAX,
    ensures
        forall|k: int|
            0 <= k < grouped_items(headers, n, expanded, totals, pins).len() ==> {
                let item = #[trigger] grouped_items(headers, n, expanded, totals, pins)[k];
                &&& item.valid()
                &&& match item {
                    MessageListItemView::Single(_) => true,
                    MessageListItemView::Group { members, row } => {
                        &&& members.len() >= 2
                        &&& members == members_of(headers, row.key)
                        &&& row.members == references(members)
                        &&& row.total >= members.len()
                        &&& forall|m: int|
                            0 <= m < members.len() ==> (#[trigger] members[m]).conversation() == Some(row.key)
                    },
                }
            },
    decreases n,
{
    broadcast use vstd::seq_lib::group_filter_ensures;

    if n > 0 {
        law_groups_are_conversations(headers, n - 1, expanded, totals, pins);
        let items = grouped_items(headers, n, expanded, totals, pins);
        let before = grouped_items(headers, n - 1, expanded, totals, pins);
        assert forall|k: int| 0 <= k < items.len() implies {
            let item = #[trigger] items[k];
            &&& item.valid()
            &&& match item {
                MessageListItemView::Single(_) => true,
                MessageListItemView::Group { members, row } => {
                    &&& members.len() >= 2
                    &&& members == members_of(headers, row.key)
                    &&& row.members == references(members)
                    &&& row.total >= members.len()
                    &&& forall|m: int|
                        0 <= m < members.len() ==> (#[trigger] members[m]).conversation() == Some(row.key)
                },
            }
        } by {
            if k < before.len() {
                assert(items[k] == before[k]);
            } else {
                match items[k] {
                    MessageListItemView::Single(_) => {},
                    MessageListItemView::Group { members, row } => {
                        headers.lemma_filter_len(in_conversation(row.key));
                        assert forall|m: int| 0 <= m < members.len() implies (#[trigger] members[m]).conversation()
                            == Some(row.key) by {
                            headers.lemma_filter_pred(in_conversation(row.key), m);
                        }
                    },
                }
            }
        }
    }
}

proof fn lemma_shown_within_held(items: Seq<MessageListItemView>)
    requires
        all_valid(items),
    ensures
        items_shown(items).subset_of(items_held(items)),
        all_expanded(items) ==> items_shown(items) == items_held(items),
    decreases items.len(),
{
    broadcast use vstd::seq_lib::group_to_multiset_ensures;

    if items.len() > 0 {
        let init = items.drop_last();
        assert(all_valid(init)) by {
            assert forall|i: int| 0 <= i < init.len() implies (#[trigger] init[i]).valid() by {
                assert(items[i].valid());
            }
        }
        lemma_shown_within_held(init);
        let item = items.last();
        assert(items[items.len() - 1] == item && item.valid());
        let shown = item_messages(item);
        let held = references(item.messages());
        match item {
            MessageListItemView::Single(message) => {
                assert(shown =~= held);
            },
            MessageListItemView::Group { members, row } => {
                if !row.expanded {
                    assert(held.contains(held[0]));
                    assert(shown =~= Seq::<MessageRefView>::empty().push(held[0]));
                    assert forall|x: MessageRefView| shown.to_multiset().count(x) <= #[trigger] held.to_multiset().count(
                        x,
                    ) by {}
                }
            },
        }
        assert(shown.to_multiset().subset_of(held.to_multiset()));
        if all_expanded(items) {
            assert(all_expanded(init)) by {
                assert forall|i: int| 0 <= i < init.len() implies match #[trigger] init[i] {
                    MessageListItemView::Single(_) => true,
                    MessageListItemView::Group { row, .. } => row.expanded,
                } by {
                    assert(init[i] == items[i]);
                }
            }
        }
    }
}

/// Every message produces exactly one row: whatever is expanded or collapsed no
/// message is shown twice, and with every conversation expanded and no section
/// collapsed each message is shown.
pub proof fn law_every_message_has_one_row(
    headers: Seq<MessageHeaderView>,
    expanded: Seq<(Seq<char>, Seq<char>)>,
    totals: Seq<((Seq<char>, Seq<char>), usize)>,
    days: Seq<i32>,
    pins: Seq<MessageRefView>,
    collapsed: Seq<Seq<char>>,
)
    requires
        headers.len() <= usize::MAX,
        days.len() == grouped_items(headers, headers.len() as int, expanded, totals, pins).len(),
        references(headers).no_duplicates(),
    ensures
        ({
            let items = grouped_items(headers, headers.len() as int, expanded, totals, pins);
            let shown = shown_messages(list_entries(items, days, pins, collapsed));
            &&& shown.no_duplicates()
            &&& forall|i: int| 0 <= i < shown.len() ==> references(headers).contains(#[trigger] shown[i])
            &&& nothing_collapsed(items, days, pins, collapsed) && all_expanded(items) ==> forall|i: int|
                0 <= i < headers.len() ==> shown.contains((#[trigger] headers[i]).reference())
        }),
{
    broadcast use vstd::seq_lib::group_to_multiset_ensures;

    let len = headers.len() as int;
    let items = grouped_items(headers, len, expanded, totals, pins);
    let shown = shown_messages(list_entries(items, days, pins, collapsed));
    let all = references(headers);
    law_groups_are_conversations(headers, len, expanded, totals, pins);
    assert(all_valid(items));
    law_grouping_partitions_the_messages(headers, expanded, totals, pins);
    law_list_shows_its_items(items, days, pins, collapsed);
    lemma_shown_within_held(items);
    all.lemma_multiset_has_no_duplicates();
    assert forall|x: MessageRefView| shown.to_multiset().count(x) <= 1 by {
        assert(shown.to_multiset().count(x) <= items_shown(items).count(x));
        assert(items_shown(items).count(x) <= items_held(items).count(x));
        if all.to_multiset().contains(x) {
            assert(all.to_multiset().count(x) == 1);
        }
    }
    assert forall|x: MessageRefView| shown.to_multiset().contains(x) implies shown.to_multiset().count(x) == 1 by {}
    shown.lemma_multiset_has_no_duplicates_conv();
    assert forall|i: int| 0 <= i < shown.len() implies all.contains(#[trigger] shown[i]) by {
        assert(shown.contains(shown[i]));
        assert(shown.to_multiset().count(shown[i]) > 0);
        assert(items_shown(items).count(shown[i]) > 0);
        assert(items_held(items).count(shown[i]) > 0);
    }
    if nothing_collapsed(items, days, pins, collapsed) && all_expanded(items) {
        assert forall|i: int| 0 <= i < headers.len() implies shown.contains((#[trigger] headers[i]).reference()) by {
            assert(all[i] == headers[i].reference());
            assert(all.contains(all[i]));
            assert(shown.to_multiset() == all.to_multiset());
            assert(shown.to_multiset().count(all[i]) > 0);
        }
    }
}

} // verus!
