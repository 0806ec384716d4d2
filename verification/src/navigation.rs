//! Moving through the message list, unfolding it, and loading more of it.
use crate::dates::{is_local_day, local_day, utc_day_of, valid_day, valid_instant};
use crate::headers::{holds_message, is_message};
use crate::list_entries::{build_list_entries, holds_text, list_entries};
use crate::list_laws::law_groups_are_conversations;
use crate::lists::{first_index, first_where, lemma_first_index, position_where, retain_where, take_list};
use crate::message_list::{
    group_message_items, grouped_items, holds_conversation, MessageListItem, MessageListItemView, MsgEntry, MsgEntryView,
};
use crate::model::{clone_list, AccountId, MessageHeader, MessageHeaderView, MessageRef, MessageRefView};
use crate::selection::holds_ref;
use crate::settings::{other_text, remove_text};
use crate::state::{AviaryApp, Effect, EffectView, FoldState, MailboxState, PaginationState};
use vstd::prelude::*;

verus! {

/// A step through the list.
#[derive(Debug, Clone, Copy, PartialEq, Eq, Structural)]
pub enum ListMovement {
    Previous,
    Next,
    First,
    Last,
}

/// Place of the message that is shown when the one at `removed` goes: the next one, or
/// the previous one at the end of the list.
pub open spec fn neighbor(len: int, removed: int) -> Option<int> {
    if removed + 1 < len {
        Some(removed + 1)
    } else if removed >= 1 {
        Some(removed - 1)
    } else {
        None
    }
}

/// Place of the message that is shown when the one at `removed` goes.
pub fn neighbor_index_after_removal(len: usize, removed: usize) -> (place: Option<usize>)
    requires
        removed < usize::MAX,
    ensures
        match place {
            Some(i) => neighbor(len as int, removed as int) == Some(i as int),
            None => neighbor(len as int, removed as int) is None,
        },
{
    if removed + 1 < len {
        Some(removed + 1)
    } else if removed >= 1 {
        Some(removed - 1)
    } else {
        None
    }
}

/// Place that a step leads to, from the current place if there is one.
pub open spec fn step(movement: ListMovement, current: Option<int>, len: int) -> int {
    match (movement, current) {
        (ListMovement::Previous, Some(i)) => if i > 0 {
            i - 1
        } else {
            0
        },
        (ListMovement::Next, Some(i)) => if i + 1 < len {
            i + 1
        } else {
            len - 1
        },
        (ListMovement::Last, _) => len - 1,
        _ => 0,
    }
}

/// Whether a target is a message with the given id.
pub open spec fn target_with_id(id: Seq<char>) -> spec_fn((usize, MessageHeaderView)) -> bool {
    |target: (usize, MessageHeaderView)| target.1.id == id
}

/// Whether a target is the given message.
pub open spec fn target_is(reference: MessageRefView) -> spec_fn((usize, MessageHeaderView)) -> bool {
    |target: (usize, MessageHeaderView)| target.1.reference() == reference
}

/// Whether a target is none of the messages `removed`.
pub open spec fn target_stays(removed: Seq<MessageRefView>) -> spec_fn((usize, MessageHeaderView)) -> bool {
    |target: (usize, MessageHeaderView)| !removed.contains(target.1.reference())
}

/// The first target that stays: from the current place to the end, and then from there
/// back to the beginning.
pub open spec fn neighbor_that_stays(targets: Seq<(usize, MessageHeaderView)>, current: int, removed: Seq<MessageRefView>) -> Option<
    MessageHeaderView,
> {
    match first_where(targets.skip(current + 1) + targets.take(current).reverse(), target_stays(removed)) {
        Some(target) => Some(target.1),
        None => None,
    }
}

/// Whether a pair names another conversation.
pub open spec fn other_conversation(key: (Seq<char>, Seq<char>)) -> spec_fn((Seq<char>, Seq<char>)) -> bool {
    |other: (Seq<char>, Seq<char>)| other != key
}

/// `keys` with `key` taken out if it is there, and put in otherwise.
pub open spec fn flipped<V>(keys: Seq<V>, key: V, other: spec_fn(V) -> bool) -> Seq<V> {
    if keys.contains(key) {
        keys.filter(other)
    } else {
        keys.push(key)
    }
}

/// Whether an entry is the folded conversation with something unread that a message heads.
pub open spec fn heads_unread(reference: MessageRefView) -> spec_fn(MsgEntryView) -> bool {
    |entry: MsgEntryView|
        match entry {
            MsgEntryView::Group { reference: newest, group, .. } => !group.expanded && group.has_unread && newest
                == reference,
            _ => false,
        }
}

impl AviaryApp {
    /// Whether a message is pinned.
    pub open spec fn pinned(self, header: MessageHeaderView) -> bool {
        self.settings.account_view(header.account_id).pinned_message_ids.contains(header.id)
    }

    /// Whether a message is pinned.
    pub fn is_message_pinned(&self, header: &MessageHeader) -> (yes: bool)
        ensures
            yes == self.pinned(header.deep_view()),
    {
        match self.settings.accounts.get(&header.account_id) {
            Some(account) => holds_text(&account.pinned_message_ids, &header.id),
            None => false,
        }
    }

    /// Whether the list groups messages by conversation: a search stays flat.
    pub open spec fn groups(self) -> bool {
        self.settings.global.group_by_conversation && self.mailbox.search.results is None
    }

    /// Whether the list groups messages by conversation.
    pub fn conversation_grouping_active(&self) -> (yes: bool)
        ensures
            yes == self.groups(),
    {
        self.settings.global.group_by_conversation && self.mailbox.search.results.is_none()
    }

    /// The pinned ones of `headers`.
    pub open spec fn pins_of(self, headers: Seq<MessageHeaderView>) -> Seq<MessageRefView> {
        headers.filter(|header: MessageHeaderView| self.pinned(header)).map_values(
            |header: MessageHeaderView| header.reference(),
        )
    }

    /// The items of the list.
    pub open spec fn items(self, headers: Seq<MessageHeaderView>) -> Seq<MessageListItemView> {
        if self.groups() {
            grouped_items(
                headers,
                headers.len() as int,
                self.mailbox.folds.expanded_conversations.deep_view(),
                self.mailbox.folds.conversation_totals.deep_view(),
                self.pins_of(headers),
            )
        } else {
            headers.map_values(|header: MessageHeaderView| MessageListItemView::Single(header))
        }
    }

    fn pinned_references(&self, headers: &Vec<&MessageHeader>) -> (pins: Vec<MessageRef>)
        ensures
            pins.deep_view() == self.pins_of(headers.deep_view()),
    {
        let ghost all = headers.deep_view();
        let ghost test = |header: MessageHeaderView| self.pinned(header);
        let ghost name = |header: MessageHeaderView| header.reference();
        let mut pins: Vec<MessageRef> = Vec::new();
        let mut i: usize = 0;
        proof {
            reveal(Seq::filter);
            assert(pins.deep_view() =~= all.take(0).filter(test).map_values(name));
        }
        while i < headers.len()
            invariant
                i <= headers.len(),
                all == headers.deep_view(),
                test == (|header: MessageHeaderView| self.pinned(header)),
                name == (|header: MessageHeaderView| header.reference()),
                pins.deep_view() == all.take(i as int).filter(test).map_values(name),
            decreases headers.len() - i,
        {
            let ghost before = pins.deep_view();
            proof {
                reveal(Seq::filter);
                assert(all[i as int] == headers[i as int].deep_view());
                assert(all.take(i + 1).drop_last() =~= all.take(i as int));
                let front = all.take(i as int).filter(test);
                assert(front.push(all[i as int]).map_values(name) =~= front.map_values(name).push(
                    name(all[i as int]),
                ));
            }
            if self.is_message_pinned(headers[i]) {
                pins.push(headers[i].reference());
                assert(pins.deep_view() =~= before.push(name(all[i as int])));
            }
            i += 1;
        }
        assert(all.take(all.len() as int) =~= all);
        pins
    }

    /// The items of the list.
    pub fn message_list_items<'a>(&self, headers: &Vec<&'a MessageHeader>) -> (items: Vec<MessageListItem<'a>>)
        ensures
            items.deep_view() == self.items(headers.deep_view()),
    {
        if self.conversation_grouping_active() {
            let pins = self.pinned_references(headers);
            let items = group_message_items(
                headers,
                &self.mailbox.folds.expanded_conversations,
                &self.mailbox.folds.conversation_totals,
                &pins,
            );
            assert(headers.deep_view().len() == headers.len());
            return items;
        }
        let mut items: Vec<MessageListItem<'a>> = Vec::new();
        let mut i: usize = 0;
        while i < headers.len()
            invariant
                i <= headers.len(),
                items.len() == i,
                forall|j: int|
                    0 <= j < i ==> (#[trigger] items[j]).deep_view() == MessageListItemView::Single(
                        headers[j].deep_view(),
                    ),
            decreases headers.len() - i,
        {
            items.push(MessageListItem::Single(headers[i]));
            i += 1;
        }
        assert(items.deep_view() =~= self.items(headers.deep_view()));
        items
    }

    /// The instants of the headers that the list is made of are instants of the calendar.
    pub open spec fn dated(self) -> bool {
        forall|i: int| 0 <= i < self.list_source().len() ==> valid_instant((#[trigger] self.list_source()[i]).received)
    }

    /// The entries of the list, for some days of its items: each is the day that the zone
    /// of the machine gives for the message that dates the item, the day in UTC or one
    /// beside it.
    pub open spec fn listed_as(self, entries: Seq<MsgEntryView>, days: Seq<i32>) -> bool {
        let items = self.items(self.filtered());
        &&& days.len() == items.len()
        &&& forall|k: int|
            0 <= k < days.len() ==> -1 <= #[trigger] days[k] - utc_day_of(items[k].messages()[0].received) <= 1
        &&& forall|k: int|
            0 <= k < days.len() ==> is_local_day(items[k].messages()[0].received, #[trigger] days[k])
        &&& entries == list_entries(
            items,
            days,
            self.pins_of(self.filtered()),
            self.mailbox.folds.collapsed_sections.deep_view(),
        )
    }

    pub proof fn lemma_items_valid(self)
        requires
            self.dated(),
            self.filtered().len() <= usize::MAX,
        ensures
            forall|k: int| 0 <= k < self.items(self.filtered()).len() ==> {
                &&& (#[trigger] self.items(self.filtered())[k]).valid()
                &&& valid_instant(self.items(self.filtered())[k].messages()[0].received)
            },
    {
        let headers = self.filtered();
        lemma_filter_holds(self.list_source(), self.shown());
        assert forall|i: int| 0 <= i < headers.len() implies valid_instant((#[trigger] headers[i]).received) by {
            let j = choose|j: int| 0 <= j < self.list_source().len() && self.list_source()[j] == headers[i];
            assert(valid_instant(self.list_source()[j].received));
        }
        if self.groups() {
            let expanded = self.mailbox.folds.expanded_conversations.deep_view();
            let totals = self.mailbox.folds.conversation_totals.deep_view();
            let pins = self.pins_of(headers);
            law_groups_are_conversations(headers, headers.len() as int, expanded, totals, pins);
            lemma_grouped_singles(headers, headers.len() as int, expanded, totals, pins);
            let items = self.items(headers);
            assert forall|k: int| 0 <= k < items.len() implies valid_instant(
                (#[trigger] items[k]).messages()[0].received,
            ) by {
                match items[k] {
                    MessageListItemView::Single(message) => {
                        assert(headers.contains(message));
                    },
                    MessageListItemView::Group { members, row } => {
                        lemma_filter_holds(headers, crate::message_list::in_conversation(row.key));
                        assert(headers.contains(members[0]));
                    },
                }
            }
        }
    }

    /// The entries of the list: which day a message belongs to rests on the time zone of
    /// the machine.
    pub fn build_message_list_entries(&self) -> (entries: Vec<MsgEntry>)
        requires
            self.dated(),
        ensures
            exists|days: Seq<i32>| #[trigger] self.listed_as(entries.deep_view(), days),
    {
        let headers = self.filtered_message_headers();
        assert(headers.deep_view().len() == headers.len());
        let items = self.message_list_items(&headers);
        let ghost shown = items.deep_view();
        proof {
            self.lemma_items_valid();
            assert(shown.len() == items.len());
        }
        let mut days: Vec<i32> = Vec::new();
        let mut i: usize = 0;
        while i < items.len()
            invariant
                i <= items.len(),
                shown == items.deep_view(),
                shown.len() == items.len(),
                forall|k: int| 0 <= k < shown.len() ==> {
                    &&& (#[trigger] shown[k]).valid()
                    &&& valid_instant(shown[k].messages()[0].received)
                },
                days.len() == i,
                forall|k: int|
                    0 <= k < i ==> {
                        &&& valid_day(#[trigger] days[k])
                        &&& -1 <= days[k] - utc_day_of(shown[k].messages()[0].received) <= 1
                        &&& is_local_day(shown[k].messages()[0].received, days[k])
                    },
            decreases items.len() - i,
        {
            assert(shown[i as int] == items[i as int].deep_view());
            let day: i32 = local_day(items[i].representative().received);
            days.push(day);
            i += 1;
        }
        let pins = self.pinned_references(&headers);
        assert forall|k: int| 0 <= k < items.len() implies (#[trigger] items[k]).deep_view().valid() by {
            assert(shown[k] == items[k].deep_view());
        }
        let entries = build_list_entries(&items, &days, &self.mailbox.folds.collapsed_sections, &pins);
        assert(self.listed_as(entries.deep_view(), days@));
        entries
    }

    /// The header of a message that is found or listed: the results of a search come first.
    pub open spec fn lookup(self, reference: MessageRefView) -> Option<MessageHeaderView> {
        match self.found_header(reference) {
            Some(header) => Some(header),
            None => first_where(self.mailbox.messages.deep_view(), is_message(reference)),
        }
    }

    /// The header of a message that is found or listed.
    pub fn message_header_for_reference(&self, reference: &MessageRef) -> (header: Option<&MessageHeader>)
        ensures
            header.deep_view() == self.lookup(reference.deep_view()),
    {
        if let Some(results) = &self.mailbox.search.results {
            if let Some(i) = holds_message(results, &reference.account_id, &reference.id) {
                assert(results.deep_view()[i as int] == results[i as int].deep_view());
                return Some(&results[i]);
            }
        }
        match holds_message(&self.mailbox.messages, &reference.account_id, &reference.id) {
            Some(i) => {
                assert(self.mailbox.messages.deep_view()[i as int] == self.mailbox.messages[i as int].deep_view());
                Some(&self.mailbox.messages[i])
            },
            None => None,
        }
    }

    /// The messages that one can step through: of each entry its message, with the place
    /// of the entry. Folded sections have none.
    pub open spec fn targets(self, entries: Seq<MsgEntryView>) -> Seq<(usize, MessageHeaderView)>
        decreases entries.len(),
    {
        if entries.len() == 0 {
            Seq::empty()
        } else {
            let front = self.targets(entries.drop_last());
            match entries.last().message() {
                Some(reference) => match self.lookup(reference) {
                    Some(header) => front.push(((entries.len() - 1) as usize, header)),
                    None => front,
                },
                None => front,
            }
        }
    }

    /// The messages that one can step through.
    pub fn navigable_message_targets(&self, entries: &Vec<MsgEntry>) -> (targets: Vec<(usize, &MessageHeader)>)
        ensures
            targets.deep_view() == self.targets(entries.deep_view()),
    {
        let ghost all = entries.deep_view();
        let mut targets: Vec<(usize, &MessageHeader)> = Vec::new();
        let mut i: usize = 0;
        assert(targets.deep_view() =~= self.targets(all.take(0)));
        while i < entries.len()
            invariant
                i <= entries.len(),
                all == entries.deep_view(),
                targets.deep_view() == self.targets(all.take(i as int)),
            decreases entries.len() - i,
        {
            let ghost before = targets.deep_view();
            assert(all[i as int] == entries[i as int].deep_view());
            assert(all.take(i + 1).drop_last() =~= all.take(i as int));
            let reference: Option<&MessageRef> = match &entries[i] {
                MsgEntry::Header { .. } => None,
                MsgEntry::Row { reference, .. } => Some(reference),
                MsgEntry::Group { reference, .. } => Some(reference),
            };
            if let Some(reference) = reference {
                if let Some(header) = self.message_header_for_reference(reference) {
                    targets.push((i, header));
                    assert(targets.deep_view() =~= before.push((i, header.deep_view())));
                }
            }
            i += 1;
        }
        assert(all.take(all.len() as int) =~= all);
        targets
    }

    /// The message to show when the one with the given id goes.
    pub fn message_neighbor_after_removal(&self, id: &String, entries: &Vec<MsgEntry>) -> (header: Option<MessageHeader>)
        ensures
            ({
                let targets = self.targets(entries.deep_view());
                match first_index(targets, target_with_id(id@)) {
                    None => header is None,
                    Some(removed) => match neighbor(targets.len() as int, removed) {
                        Some(i) => header.deep_view() == Some(targets[i].1),
                        None => header is None,
                    },
                }
            }),
    {
        let targets = self.navigable_message_targets(entries);
        let ghost all = targets.deep_view();
        let found = position_where(
            &targets,
            |target: &(usize, &MessageHeader)| -> (same: bool)
                ensures
                    same == target_with_id(id@)(target.deep_view())
                { target.1.id == *id },
            Ghost(target_with_id(id@)),
        );
        match found {
            None => None,
            Some(removed) => match neighbor_index_after_removal(targets.len(), removed) {
                Some(i) => {
                    assert(all[i as int] == targets[i as int].deep_view());
                    Some(targets[i].1.clone())
                },
                None => None,
            },
        }
    }

    /// The message to show when the messages `removed` go: the next one below that stays,
    /// or the nearest one above.
    pub fn message_neighbor_after_bulk_removal(
        &self,
        current: &MessageRef,
        removed: &Vec<MessageRef>,
        entries: &Vec<MsgEntry>,
    ) -> (header: Option<MessageHeader>)
        ensures
            ({
                let targets = self.targets(entries.deep_view());
                match first_index(targets, target_is(current.deep_view())) {
                    None => header is None,
                    Some(at) => header.deep_view() == neighbor_that_stays(targets, at, removed.deep_view()),
                }
            }),
    {
        let targets = self.navigable_message_targets(entries);
        let ghost all = targets.deep_view();
        let found = position_where(
            &targets,
            |target: &(usize, &MessageHeader)| -> (same: bool)
                ensures
                    same == target_is(current.deep_view())(target.deep_view())
                { target.1.account_id == current.account_id && target.1.id == current.id },
            Ghost(target_is(current.deep_view())),
        );
        let at = match found {
            Some(at) => at,
            None => {
                return None;
            },
        };
        let ghost test = target_stays(removed.deep_view());
        let ghost order = all.skip(at + 1) + all.take(at as int).reverse();
        let mut i: usize = at + 1;
        while i < targets.len()
            invariant
                at < i <= targets.len(),
                all == targets.deep_view(),
                all == self.targets(entries.deep_view()),
                first_index(all, target_is(current.deep_view())) == Some(at as int),
                all.len() == targets.len(),
                test == target_stays(removed.deep_view()),
                order == all.skip(at + 1) + all.take(at as int).reverse(),
                forall|j: int| 0 <= j < i - at - 1 ==> !test(#[trigger] order[j]),
            decreases targets.len() - i,
        {
            assert(all[i as int] == targets[i as int].deep_view());
            assert(order[i - at - 1] == all[i as int]);
            if !holds_ref(removed, &targets[i].1.reference()) {
                proof {
                    crate::lists::lemma_first_index_is(order, test, i - at - 1);
                }
                return Some(targets[i].1.clone());
            }
            i += 1;
        }
        let mut k: usize = at;
        while k > 0
            invariant
                k <= at < targets.len(),
                all == targets.deep_view(),
                all == self.targets(entries.deep_view()),
                first_index(all, target_is(current.deep_view())) == Some(at as int),
                all.len() == targets.len(),
                test == target_stays(removed.deep_view()),
                order == all.skip(at + 1) + all.take(at as int).reverse(),
                forall|j: int| 0 <= j < all.len() - at - 1 + (at - k) ==> !test(#[trigger] order[j]),
            decreases k,
        {
            let ghost place = all.len() - at - 1 + (at - k);
            assert(all[k - 1] == targets[k - 1].deep_view());
            assert(order[place] == all.take(at as int).reverse()[at - k]);
            assert(all.take(at as int).reverse()[at - k] == all[k - 1]);
            if !holds_ref(removed, &targets[k - 1].1.reference()) {
                proof {
                    crate::lists::lemma_first_index_is(order, test, place);
                }
                return Some(targets[k - 1].1.clone());
            }
            k -= 1;
        }
        proof {
            lemma_first_index(order, test);
        }
        None
    }

    /// The message that steps start from.
    pub open spec fn current_id(self) -> Option<Seq<char>> {
        match self.displayed() {
            Some(message) => Some(message.header.id),
            None => self.mailbox.viewer.selected_id.deep_view(),
        }
    }

    /// Place of the message that steps start from.
    pub open spec fn current_place(self, targets: Seq<(usize, MessageHeaderView)>) -> Option<int> {
        match self.current_id() {
            Some(id) => first_index(targets, target_with_id(id)),
            None => None,
        }
    }

    /// Where a step leads to: the entry to scroll to and the message to open.
    pub fn navigate_messages(&self, movement: ListMovement, entries: &Vec<MsgEntry>) -> (target: Option<
        (usize, MessageRef),
    >)
        ensures
            ({
                let targets = self.targets(entries.deep_view());
                if targets.len() == 0 {
                    target is None
                } else {
                    let place = step(movement, self.current_place(targets), targets.len() as int);
                    target.deep_view() == Some((targets[place].0, targets[place].1.reference()))
                }
            }),
    {
        let targets = self.navigable_message_targets(entries);
        let ghost all = targets.deep_view();
        assert(all.len() == targets.len());
        if targets.len() == 0 {
            return None;
        }
        let id: Option<String> = match self.displayed_message() {
            Some(message) => Some(message.header.id.clone()),
            None => self.mailbox.viewer.selected_id.clone(),
        };
        let current: Option<usize> = match &id {
            Some(id) => {
                proof {
                    lemma_first_index(all, target_with_id(id@));
                }
                position_where(
                    &targets,
                    |target: &(usize, &MessageHeader)| -> (same: bool)
                        ensures
                            same == target_with_id(id@)(target.deep_view())
                        { target.1.id == *id },
                    Ghost(target_with_id(id@)),
                )
            },
            None => None,
        };
        let place: usize = match movement {
            ListMovement::Previous => match current {
                Some(i) => if i > 0 {
                    i - 1
                } else {
                    0
                },
                None => 0,
            },
            ListMovement::Next => match current {
                Some(i) => if i + 1 < targets.len() {
                    i + 1
                } else {
                    targets.len() - 1
                },
                None => 0,
            },
            ListMovement::First => 0,
            ListMovement::Last => targets.len() - 1,
        };
        assert(all[place as int] == targets[place as int].deep_view());
        Some((targets[place].0, targets[place].1.reference()))
    }

    /// The loaded members of the folded conversation with something unread that a message
    /// heads in the list: to open such a row is to read the conversation.
    pub fn collapsed_conversation_members(&self, reference: &MessageRef, entries: &Vec<MsgEntry>) -> (members: Option<
        Vec<MessageRef>,
    >)
        ensures
            members.deep_view() == (if !self.groups() {
                None
            } else {
                match first_where(entries.deep_view(), heads_unread(reference.deep_view())) {
                    Some(MsgEntryView::Group { group, .. }) => Some(group.members),
                    _ => None,
                }
            }),
    {
        if !self.conversation_grouping_active() {
            return None;
        }
        proof {
            lemma_first_index(entries.deep_view(), heads_unread(reference.deep_view()));
        }
        let found = position_where(
            entries,
            |entry: &MsgEntry| -> (heads: bool)
                ensures
                    heads == heads_unread(reference.deep_view())(entry.deep_view())
                {
                match entry {
                    MsgEntry::Group { reference: newest, group, .. } => !group.expanded && group.has_unread && *newest
                        == *reference,
                    _ => false,
                }
            },
            Ghost(heads_unread(reference.deep_view())),
        );
        match found {
            Some(i) => {
                assert(entries.deep_view()[i as int] == entries[i as int].deep_view());
                match &entries[i] {
                    MsgEntry::Group { group, .. } => Some(clone_list(&group.members)),
                    _ => None,
                }
            },
            None => None,
        }
    }

    /// Nothing but how the list is folded differs, and the list is laid out again.
    pub open spec fn refolded(self, after: AviaryApp) -> bool {
        after == (AviaryApp {
            mailbox: MailboxState { folds: after.mailbox.folds, ..self.mailbox },
            message_list_revision: self.next_revision(),
            ..self
        })
    }

    /// Unfolds a conversation, or folds it.
    pub fn toggle_conversation_expanded(&mut self, key: (AccountId, String))
        ensures
            final(self).mailbox.folds.expanded_conversations.deep_view() == flipped(
                old(self).mailbox.folds.expanded_conversations.deep_view(),
                key.deep_view(),
                other_conversation(key.deep_view()),
            ),
            final(self).mailbox.folds == (FoldState {
                expanded_conversations: final(self).mailbox.folds.expanded_conversations,
                ..old(self).mailbox.folds
            }),
            old(self).refolded(*final(self)),
    {
        if holds_conversation(&self.mailbox.folds.expanded_conversations, &key) {
            let taken = take_list(&mut self.mailbox.folds.expanded_conversations);
            self.mailbox.folds.expanded_conversations = retain_where(
                taken,
                |other: &(AccountId, String)| -> (keep: bool)
                    ensures
                        keep == (other.deep_view() != key.deep_view())
                    { !(other.0 == key.0 && other.1 == key.1) },
                Ghost(other_conversation(key.deep_view())),
            );
        } else {
            let ghost before = self.mailbox.folds.expanded_conversations.deep_view();
            self.mailbox.folds.expanded_conversations.push(key);
            assert(self.mailbox.folds.expanded_conversations.deep_view() =~= before.push(key.deep_view()));
        }
        self.invalidate_message_list();
    }

    /// Folds a section, or unfolds it.
    pub fn toggle_section_collapsed(&mut self, key: String)
        ensures
            final(self).mailbox.folds.collapsed_sections.deep_view() == flipped(
                old(self).mailbox.folds.collapsed_sections.deep_view(),
                key@,
                other_text(key@),
            ),
            final(self).mailbox.folds == (FoldState {
                collapsed_sections: final(self).mailbox.folds.collapsed_sections,
                ..old(self).mailbox.folds
            }),
            old(self).refolded(*final(self)),
    {
        if holds_text(&self.mailbox.folds.collapsed_sections, &key) {
            remove_text(&mut self.mailbox.folds.collapsed_sections, &key);
        } else {
            let ghost before = self.mailbox.folds.collapsed_sections.deep_view();
            self.mailbox.folds.collapsed_sections.push(key);
            assert(self.mailbox.folds.collapsed_sections.deep_view() =~= before.push(key@));
        }
        self.invalidate_message_list();
    }

    /// Whether more of the list is to be asked for: not for the results of a search, only
    /// where there is more, and only once for each length of the list.
    pub open spec fn wants_more(self) -> bool {
        let pagination = self.mailbox.pagination;
        &&& self.mailbox.search.results is None
        &&& pagination.has_more
        &&& !pagination.loading_more
        &&& pagination.last_request_len != Some(self.mailbox.messages.len())
    }

    /// The requests for more of the list.
    pub open spec fn more_asks(self) -> Seq<EffectView> {
        if self.unified_pagination() {
            seq![EffectView::LoadMoreUnified { request_id: self.mailbox.pagination.unified_request_id }]
        } else {
            self.active_accounts().map_values(
                |account_id: Seq<char>|
                    EffectView::LoadMore {
                        account_id,
                        folder_id: self.mailbox.selected_folder_id.deep_view(),
                        skip: self.mailbox.messages.len(),
                        limit: self.limit_of(account_id),
                    },
            )
        }
    }

    /// Asks for more of the list.
    pub fn load_more_messages(&mut self)
        ensures
            if old(self).wants_more() {
                &&& final(self).asked(*old(self), old(self).more_asks())
                &&& *final(self) == (AviaryApp {
                    mailbox: MailboxState {
                        pagination: PaginationState {
                            loading_more: true,
                            last_request_len: Some(old(self).mailbox.messages.len()),
                            ..old(self).mailbox.pagination
                        },
                        ..old(self).mailbox
                    },
                    effects: final(self).effects,
                    ..*old(self)
                })
            } else {
                *final(self) == *old(self)
            },
    {
        let count: usize = self.mailbox.messages.len();
        let asked_for = match self.mailbox.pagination.last_request_len {
            Some(len) => len == count,
            None => false,
        };
        if self.mailbox.search.results.is_some() || !self.mailbox.pagination.has_more
            || self.mailbox.pagination.loading_more || asked_for {
            return;
        }
        let ghost start = *self;
        self.mailbox.pagination.loading_more = true;
        self.mailbox.pagination.last_request_len = Some(count);
        if self.uses_unified_pagination() {
            self.send(Effect::LoadMoreUnified { request_id: self.mailbox.pagination.unified_request_id });
            return;
        }
        let folder = self.mailbox.selected_folder_id.clone();
        let accounts = self.active_account_ids();
        let ghost ids = accounts.deep_view();
        let ghost ask = |account_id: Seq<char>|
            EffectView::LoadMore {
                account_id,
                folder_id: start.mailbox.selected_folder_id.deep_view(),
                skip: start.mailbox.messages.len(),
                limit: start.limit_of(account_id),
            };
        let ghost marked = *self;
        let mut i: usize = 0;
        assert(self.effects.deep_view() =~= start.effects.deep_view() + ids.take(0).map_values(ask));
        while i < accounts.len()
            invariant
                i <= accounts.len(),
                ids == accounts.deep_view(),
                count == start.mailbox.messages.len(),
                ask == (|account_id: Seq<char>|
                    EffectView::LoadMore {
                        account_id,
                        folder_id: start.mailbox.selected_folder_id.deep_view(),
                        skip: start.mailbox.messages.len(),
                        limit: start.limit_of(account_id),
                    }),
                folder.deep_view() == start.mailbox.selected_folder_id.deep_view(),
                marked.settings == start.settings,
                self.asked(start, ids.take(i as int).map_values(ask)),
                *self == (AviaryApp { effects: self.effects, ..marked }),
            decreases accounts.len() - i,
        {
            let ghost middle = *self;
            assert(ids[i as int] == accounts[i as int].0@);
            let limit: usize = self.fetch_limit(&accounts[i]);
            self.send(
                Effect::LoadMore { account_id: accounts[i].clone(), folder_id: folder.clone(), skip: count, limit },
            );
            proof {
                let before = ids.take(i as int).map_values(ask);
                AviaryApp::lemma_asked(start, middle, *self, before, seq![ask(ids[i as int])]);
                assert(before + seq![ask(ids[i as int])] =~= ids.take(i + 1).map_values(ask));
            }
            i += 1;
        }
        assert(ids.take(ids.len() as int) =~= ids);
    }
}

/// What is kept was there before.
pub proof fn lemma_filter_holds<V>(s: Seq<V>, p: spec_fn(V) -> bool)
    ensures
        forall|i: int| 0 <= i < s.filter(p).len() ==> s.contains(#[trigger] s.filter(p)[i]),
    decreases s.len(),
{
    reveal(Seq::filter);
    if s.len() > 0 {
        let init = s.drop_last();
        lemma_filter_holds(init, p);
        assert forall|i: int| 0 <= i < s.filter(p).len() implies s.contains(#[trigger] s.filter(p)[i]) by {
            if i < init.filter(p).len() {
                assert(init.contains(init.filter(p)[i]));
                let j = choose|j: int| 0 <= j < init.len() && init[j] == init.filter(p)[i];
                assert(s[j] == init.filter(p)[i]);
            } else {
                assert(s[s.len() - 1] == s.filter(p)[i]);
            }
        }
    }
}

proof fn lemma_grouped_singles(
    headers: Seq<MessageHeaderView>,
    n: int,
    expanded: Seq<(Seq<char>, Seq<char>)>,
    totals: Seq<((Seq<char>, Seq<char>), usize)>,
    pins: Seq<MessageRefView>,
)
    requires
        0 <= n <= headers.len(),
    ensures
        forall|k: int| 0 <= k < grouped_items(headers, n, expanded, totals, pins).len() ==> match (
        #[trigger] grouped_items(headers, n, expanded, totals, pins)[k]) {
            MessageListItemView::Single(message) => headers.contains(message),
            _ => true,
        },
    decreases n,
{
    if n > 0 {
        lemma_grouped_singles(headers, n - 1, expanded, totals, pins);
        assert(headers.contains(headers[n - 1]));
    }
}

/// A step stays within the list.
pub proof fn law_steps_stay_in_the_list(movement: ListMovement, current: Option<int>, len: int)
    requires
        len > 0,
        current is Some ==> 0 <= current->0 < len,
    ensures
        0 <= step(movement, current, len) < len,
{
}

/// To step down and up again leads back, but at the end of the list.
pub proof fn law_stepping_back(i: int, len: int)
    requires
        0 <= i,
        i + 1 < len,
    ensures
        step(ListMovement::Previous, Some(step(ListMovement::Next, Some(i), len)), len) == i,
        step(ListMovement::Next, Some(step(ListMovement::Previous, Some(i + 1), len)), len) == i + 1,
{
}

/// The message that is shown when another one goes is a different one of the list; there
/// is one unless the list holds no other.
pub proof fn law_neighbors(len: int, removed: int)
    requires
        0 <= removed < len,
    ensures
        match neighbor(len, removed) {
            Some(i) => 0 <= i < len && i != removed,
            None => len == 1,
        },
{
}

/// What a change by one key does to membership.
pub proof fn lemma_flipped(keys: Seq<Seq<char>>, key: Seq<char>, other: Seq<char>)
    ensures
        flipped(keys, key, other_text(key)).contains(other) == (if other == key {
            !keys.contains(key)
        } else {
            keys.contains(other)
        }),
{
    let rest = keys.filter(other_text(key));
    lemma_filter_accepts(keys, other_text(key));
    if rest.contains(other) {
        let i = choose|i: int| 0 <= i < rest.len() && rest[i] == other;
        assert(other_text(key)(rest[i]));
        lemma_filter_holds(keys, other_text(key));
        assert(keys.contains(rest[i]));
    }
    if keys.contains(other) && other != key {
        lemma_filter_keeps(keys, other_text(key), other);
    }
    if !keys.contains(key) {
        let more = keys.push(key);
        assert(more[keys.len() as int] == key);
        if keys.contains(other) {
            let i = choose|i: int| 0 <= i < keys.len() && keys[i] == other;
            assert(more[i] == other);
        }
        if more.contains(other) && other != key {
            let i = choose|i: int| 0 <= i < more.len() && more[i] == other;
            assert(keys[i] == other);
        }
    }
}

/// Taking out a text leaves the others, each as often as before.
pub proof fn lemma_other_texts(texts: Seq<Seq<char>>, text: Seq<char>)
    ensures
        !texts.filter(other_text(text)).contains(text),
        forall|other: Seq<char>| #[trigger] texts.filter(other_text(text)).contains(other) ==> texts.contains(other),
        forall|i: int|
            0 <= i < texts.filter(other_text(text)).len() ==> other_text(text)(
                #[trigger] texts.filter(other_text(text))[i],
            ),
        texts.no_duplicates() ==> texts.filter(other_text(text)).no_duplicates(),
    decreases texts.len(),
{
    reveal(Seq::filter);
    lemma_filter_accepts(texts, other_text(text));
    lemma_filter_holds(texts, other_text(text));
    let rest = texts.filter(other_text(text));
    if rest.contains(text) {
        let i = choose|i: int| 0 <= i < rest.len() && rest[i] == text;
        assert(other_text(text)(rest[i]));
    }
    if texts.len() > 0 && texts.no_duplicates() {
        let init = texts.drop_last();
        lemma_other_texts(init, text);
        assert(init.no_duplicates());
        assert(!init.contains(texts.last())) by {
            if init.contains(texts.last()) {
                let i = choose|i: int| 0 <= i < init.len() && init[i] == texts.last();
                assert(texts[i] == texts[texts.len() - 1]);
            }
        }
        assert(!init.filter(other_text(text)).contains(texts.last()));
    }
}

/// What passes a test is kept.
pub proof fn lemma_filter_keeps<V>(s: Seq<V>, p: spec_fn(V) -> bool, x: V)
    requires
        s.contains(x),
        p(x),
    ensures
        s.filter(p).contains(x),
    decreases s.len(),
{
    reveal(Seq::filter);
    let init = s.drop_last();
    if s.last() == x {
        let kept = init.filter(p).push(x);
        assert(kept[kept.len() - 1] == x);
    } else {
        let i = choose|i: int| 0 <= i < s.len() && s[i] == x;
        assert(init[i] == x);
        lemma_filter_keeps(init, p, x);
        let j = choose|j: int| 0 <= j < init.filter(p).len() && init.filter(p)[j] == x;
        assert(s.filter(p)[j] == x);
    }
}

/// What is folded and unfolded again is as it was, up to the order in which it is kept.
pub proof fn law_folding_is_undone(keys: Seq<Seq<char>>, key: Seq<char>)
    ensures
        flipped(flipped(keys, key, other_text(key)), key, other_text(key)).contains(key) == keys.contains(key),
        !keys.contains(key) ==> flipped(flipped(keys, key, other_text(key)), key, other_text(key)) == keys,
{
    let other = other_text(key);
    reveal(Seq::filter);
    if keys.contains(key) {
        let rest = keys.filter(other);
        assert(!rest.contains(key)) by {
            if rest.contains(key) {
                let i = choose|i: int| 0 <= i < rest.len() && rest[i] == key;
                lemma_filter_accepts(keys, other);
                assert(other(rest[i]));
            }
        }
        assert(rest.push(key)[rest.len() as int] == key);
    } else {
        let more = keys.push(key);
        assert(more[keys.len() as int] == key);
        assert(more.drop_last() =~= keys);
        crate::lists::lemma_filter_all(keys, other);
        assert(more.filter(other) == keys);
    }
}

/// What is kept passed the test.
pub proof fn lemma_filter_accepts<V>(s: Seq<V>, p: spec_fn(V) -> bool)
    ensures
        forall|i: int| 0 <= i < s.filter(p).len() ==> p(#[trigger] s.filter(p)[i]),
    decreases s.len(),
{
    reveal(Seq::filter);
    if s.len() > 0 {
        lemma_filter_accepts(s.drop_last(), p);
    }
}

} // verus!
