//! The message list: folding headers into conversations and laying the
//! conversations out in sections.
use crate::lists::{any_where, first_where, position_where};
use crate::model::{AccountId, MessageHeader, MessageHeaderView, MessageRef, MessageRefView};
use vstd::prelude::*;

verus! {

/// `(account, conversation)`: thread ids are only comparable inside one account,
/// and the inbox may be unified.
pub type ConversationKey = (AccountId, String);

/// A conversation shown as one row.
/// 
/// The row is the thread's newest message; actions that would otherwise hit a
/// single message apply to the whole thread.
#[derive(Debug, PartialEq, Eq)]
pub struct GroupRow {
    pub key: (AccountId, String),
    /// Members currently loaded in the list, newest first.
    pub members: Vec<MessageRef>,
    /// Size of the thread as best known.
    pub total: usize,
    pub expanded: bool,
    /// One unread member makes the thread unread.
    pub has_unread: bool,
    /// One pinned member pins the thread.
    pub pinned: bool,
}

/// Mathematical form of [`GroupRow`].
#[verifier::ext_equal]
pub struct GroupRowView {
    pub key: (Seq<char>, Seq<char>),
    pub members: Seq<MessageRefView>,
    pub total: usize,
    pub expanded: bool,
    pub has_unread: bool,
    pub pinned: bool,
}

impl DeepView for GroupRow {
    type V = GroupRowView;

    open spec fn deep_view(&self) -> GroupRowView {
        GroupRowView {
            key: self.key.deep_view(),
            members: self.members.deep_view(),
            total: self.total,
            expanded: self.expanded,
            has_unread: self.has_unread,
            pinned: self.pinned,
        }
    }
}

impl Clone for GroupRow {
    fn clone(&self) -> (copy: Self)
        ensures
            copy.deep_view() == self.deep_view(),
    {
        GroupRow {
            key: (self.key.0.clone(), self.key.1.clone()),
            members: crate::model::clone_list(&self.members),
            total: self.total,
            expanded: self.expanded,
            has_unread: self.has_unread,
            pinned: self.pinned,
        }
    }
}

/// What a section of the list is called.
#[derive(Debug, Clone, Copy, PartialEq, Eq, Structural)]
pub enum SectionLabel {
    Pinned,
    /// The local calendar day, counted from the day before 0001-01-01.
    Day(i32),
}

/// Entry in the message list: the section-to-row tree is flattened into a
/// sequence of known-height items.
#[derive(Debug, PartialEq, Eq)]
pub enum MsgEntry {
    Header { key: String, label: SectionLabel, count: usize, pinned: bool, collapsed: bool },
    /// A message; `in_group` marks an indented member of an expanded conversation.
    Row { reference: MessageRef, time_only: bool, pinned: bool, section_end: bool, in_group: bool },
    Group { reference: MessageRef, group: GroupRow, time_only: bool, pinned: bool, section_end: bool },
}

/// Mathematical form of [`MsgEntry`].
#[verifier::ext_equal]
pub enum MsgEntryView {
    Header { key: Seq<char>, label: SectionLabel, count: usize, pinned: bool, collapsed: bool },
    Row { reference: MessageRefView, time_only: bool, pinned: bool, section_end: bool, in_group: bool },
    Group { reference: MessageRefView, group: GroupRowView, time_only: bool, pinned: bool, section_end: bool },
}

impl DeepView for MsgEntry {
    type V = MsgEntryView;

    open spec fn deep_view(&self) -> MsgEntryView {
        match self {
            MsgEntry::Header { key, label, count, pinned, collapsed } => MsgEntryView::Header { key: key.deep_view(), label: *label, count: *count, pinned: *pinned, collapsed: *collapsed },
            MsgEntry::Row { reference, time_only, pinned, section_end, in_group } => MsgEntryView::Row { reference: reference.deep_view(), time_only: *time_only, pinned: *pinned, section_end: *section_end, in_group: *in_group },
            MsgEntry::Group { reference, group, time_only, pinned, section_end } => MsgEntryView::Group { reference: reference.deep_view(), group: group.deep_view(), time_only: *time_only, pinned: *pinned, section_end: *section_end },
        }
    }
}

impl Clone for MsgEntry {
    fn clone(&self) -> (copy: Self)
        ensures
            copy.deep_view() == self.deep_view(),
    {
        match self {
            MsgEntry::Header { key, label, count, pinned, collapsed } => MsgEntry::Header { key: key.clone(), label: *label, count: *count, pinned: *pinned, collapsed: *collapsed },
            MsgEntry::Row { reference, time_only, pinned, section_end, in_group } => MsgEntry::Row { reference: reference.clone(), time_only: *time_only, pinned: *pinned, section_end: *section_end, in_group: *in_group },
            MsgEntry::Group { reference, group, time_only, pinned, section_end } => MsgEntry::Group { reference: reference.clone(), group: group.clone(), time_only: *time_only, pinned: *pinned, section_end: *section_end },
        }
    }
}

/// Everything about an entry that can change its measured height.
#[derive(Debug, Clone, Copy, PartialEq, Eq, Hash, Structural)]
pub enum MsgEntryVariant {
    Header { pinned: bool, collapsed: bool },
    Row { pinned: bool, section_end: bool, in_group: bool },
    Group { pinned: bool, section_end: bool },
}

impl MsgEntryView {
    /// The height class of the entry.
    pub open spec fn variant(self) -> MsgEntryVariant {
        match self {
            MsgEntryView::Header { pinned, collapsed, .. } => MsgEntryVariant::Header { pinned, collapsed },
            MsgEntryView::Row { pinned, section_end, in_group, .. } => MsgEntryVariant::Row {
                pinned,
                section_end,
                in_group,
            },
            MsgEntryView::Group { pinned, section_end, .. } => MsgEntryVariant::Group { pinned, section_end },
        }
    }

    /// The entry as the last one of its section.
    pub open spec fn closing(self) -> MsgEntryView {
        match self {
            MsgEntryView::Header { .. } => self,
            MsgEntryView::Row { reference, time_only, pinned, section_end, in_group } => MsgEntryView::Row {
                reference,
                time_only,
                pinned,
                section_end: true,
                in_group,
            },
            MsgEntryView::Group { reference, group, time_only, pinned, section_end } => MsgEntryView::Group {
                reference,
                group,
                time_only,
                pinned,
                section_end: true,
            },
        }
    }

    /// The message that the entry stands for; a section header stands for none.
    pub open spec fn message(self) -> Option<MessageRefView> {
        match self {
            MsgEntryView::Header { .. } => None,
            MsgEntryView::Row { reference, .. } => Some(reference),
            MsgEntryView::Group { reference, .. } => Some(reference),
        }
    }
}

impl MsgEntry {
    pub fn variant(&self) -> (variant: MsgEntryVariant)
        ensures
            variant == self.deep_view().variant(),
    {
        match self {
            MsgEntry::Header { pinned, collapsed, .. } => MsgEntryVariant::Header {
                pinned: *pinned,
                collapsed: *collapsed,
            },
            MsgEntry::Row { pinned, section_end, in_group, .. } => MsgEntryVariant::Row {
                pinned: *pinned,
                section_end: *section_end,
                in_group: *in_group,
            },
            MsgEntry::Group { pinned, section_end, .. } => MsgEntryVariant::Group {
                pinned: *pinned,
                section_end: *section_end,
            },
        }
    }

    /// Closes the frame of a section on the last entry it contains, whatever
    /// kind that entry turned out to be.
    pub fn mark_section_end(&mut self)
        ensures
            final(self).deep_view() == old(self).deep_view().closing(),
    {
        match self {
            MsgEntry::Row { section_end, .. } => *section_end = true,
            MsgEntry::Group { section_end, .. } => *section_end = true,
            MsgEntry::Header { .. } => {},
        }
    }
}

/// One row of the list before sections: a lone message, or a conversation
/// standing in for several. The members of a conversation come newest first.
#[derive(Debug)]
pub enum MessageListItem<'a> {
    Single(&'a MessageHeader),
    Group { members: Vec<&'a MessageHeader>, row: GroupRow },
}

/// Mathematical form of [`MessageListItem`].
#[verifier::ext_equal]
pub enum MessageListItemView {
    Single(MessageHeaderView),
    Group { members: Seq<MessageHeaderView>, row: GroupRowView },
}

impl<'a> DeepView for MessageListItem<'a> {
    type V = MessageListItemView;

    open spec fn deep_view(&self) -> MessageListItemView {
        match self {
            MessageListItem::Single(message) => MessageListItemView::Single(message.deep_view()),
            MessageListItem::Group { members, row } => MessageListItemView::Group {
                members: members.deep_view(),
                row: row.deep_view(),
            },
        }
    }
}

impl MessageListItemView {
    /// The messages of the item.
    pub open spec fn messages(self) -> Seq<MessageHeaderView> {
        match self {
            MessageListItemView::Single(message) => seq![message],
            MessageListItemView::Group { members, .. } => members,
        }
    }

    /// A conversation has at least one member.
    pub open spec fn valid(self) -> bool {
        self.messages().len() > 0
    }

    /// Whether the item belongs to the pinned section.
    pub open spec fn pinned(self, pinned: Seq<MessageRefView>) -> bool {
        match self {
            MessageListItemView::Single(message) => pinned.contains(message.reference()),
            MessageListItemView::Group { row, .. } => row.pinned,
        }
    }
}

impl<'a> MessageListItem<'a> {
    /// Message that dates the item and stands in for it in the list.
    pub fn representative(&self) -> (message: &'a MessageHeader)
        requires
            self.deep_view().valid(),
        ensures
            message.deep_view() == self.deep_view().messages()[0],
    {
        match self {
            MessageListItem::Single(message) => message,
            MessageListItem::Group { members, .. } => {
                assert(members.deep_view().len() == members.len());
                members[0]
            },
        }
    }
}

/// Whether a header belongs to the conversation `key`.
pub open spec fn in_conversation(key: (Seq<char>, Seq<char>)) -> spec_fn(MessageHeaderView) -> bool {
    |message: MessageHeaderView| message.conversation() == Some(key)
}

/// The loaded members of a conversation, in list order.
pub open spec fn members_of(headers: Seq<MessageHeaderView>, key: (Seq<char>, Seq<char>)) -> Seq<MessageHeaderView> {
    headers.filter(in_conversation(key))
}

/// Whether a header is unread.
pub open spec fn is_unread() -> spec_fn(MessageHeaderView) -> bool {
    |message: MessageHeaderView| !message.is_read
}

/// Whether a header is one of the `pinned` messages.
pub open spec fn is_pinned(pinned: Seq<MessageRefView>) -> spec_fn(MessageHeaderView) -> bool {
    |message: MessageHeaderView| pinned.contains(message.reference())
}

/// Whether an entry of a table is the one for `key`.
pub open spec fn total_for(key: (Seq<char>, Seq<char>)) -> spec_fn(((Seq<char>, Seq<char>), usize)) -> bool {
    |entry: ((Seq<char>, Seq<char>), usize)| entry.0 == key
}

/// Size of a conversation: what is known of it, and never fewer than are loaded.
pub open spec fn conversation_total(
    totals: Seq<((Seq<char>, Seq<char>), usize)>,
    key: (Seq<char>, Seq<char>),
    loaded: nat,
) -> nat {
    match first_where(totals, total_for(key)) {
        Some(entry) => if entry.1 >= loaded { entry.1 as nat } else { loaded },
        None => loaded,
    }
}

/// The row that stands for the conversation `key` with the loaded `members`.
pub open spec fn group_row(
    members: Seq<MessageHeaderView>,
    key: (Seq<char>, Seq<char>),
    expanded: Seq<(Seq<char>, Seq<char>)>,
    totals: Seq<((Seq<char>, Seq<char>), usize)>,
    pinned: Seq<MessageRefView>,
) -> GroupRowView {
    GroupRowView {
        key,
        members: members.map_values(|message: MessageHeaderView| message.reference()),
        total: conversation_total(totals, key, members.len()) as usize,
        expanded: expanded.contains(key),
        has_unread: members.any(is_unread()),
        pinned: members.any(is_pinned(pinned)),
    }
}

/// What the message at `i` contributes to the list: a row of its own, the row of
/// the conversation that it is the newest member of, or nothing.
pub open spec fn item_at(
    headers: Seq<MessageHeaderView>,
    i: int,
    expanded: Seq<(Seq<char>, Seq<char>)>,
    totals: Seq<((Seq<char>, Seq<char>), usize)>,
    pinned: Seq<MessageRefView>,
) -> Option<MessageListItemView> {
    match headers[i].conversation() {
        None => Some(MessageListItemView::Single(headers[i])),
        Some(key) => {
            let members = members_of(headers, key);
            if members.len() < 2 {
                Some(MessageListItemView::Single(headers[i]))
            } else if headers.take(i).any(in_conversation(key)) {
                None
            } else {
                Some(
                    MessageListItemView::Group {
                        members,
                        row: group_row(members, key, expanded, totals, pinned),
                    },
                )
            }
        },
    }
}

/// The items that the first `n` messages contribute.
pub open spec fn grouped_items(
    headers: Seq<MessageHeaderView>,
    n: int,
    expanded: Seq<(Seq<char>, Seq<char>)>,
    totals: Seq<((Seq<char>, Seq<char>), usize)>,
    pinned: Seq<MessageRefView>,
) -> Seq<MessageListItemView>
    decreases n,
{
    if n <= 0 {
        Seq::empty()
    } else {
        let before = grouped_items(headers, n - 1, expanded, totals, pinned);
        match item_at(headers, n - 1, expanded, totals, pinned) {
            Some(item) => before.push(item),
            None => before,
        }
    }
}

/// Whether a header names a pinned message.
pub(crate) fn names_pinned(pinned: &Vec<MessageRef>, message: &MessageHeader) -> (found: bool)
    ensures
        found == pinned.deep_view().contains(message.deep_view().reference()),
{
    let ghost wanted = message.deep_view().reference();
    let ghost test = |reference: MessageRefView| wanted == reference;
    let found = any_where(
        pinned,
        |reference: &MessageRef| -> (same: bool)
            ensures
                same == (message.deep_view().reference() == reference.deep_view())
            { message.is(reference) },
        Ghost(test),
    );
    proof {
        let s = pinned.deep_view();
        if s.contains(wanted) {
            let i = choose|i: int| 0 <= i < s.len() && s[i] == wanted;
            assert(test(s[i]));
        }
    }
    found
}

/// Whether two conversation keys are the same.
pub(crate) fn same_conversation(a: &(AccountId, String), b: &(AccountId, String)) -> (same: bool)
    ensures
        same == (a.deep_view() == b.deep_view()),
{
    a.0 == b.0 && a.1 == b.1
}

/// Whether `keys` holds the conversation `key`.
pub(crate) fn holds_conversation(keys: &Vec<(AccountId, String)>, key: &(AccountId, String)) -> (found: bool)
    ensures
        found == keys.deep_view().contains(key.deep_view()),
{
    let ghost wanted = key.deep_view();
    let ghost test = |other: (Seq<char>, Seq<char>)| other == wanted;
    let found = any_where(
        keys,
        |other: &(AccountId, String)| -> (same: bool)
            ensures
                same == (other.deep_view() == key.deep_view())
            { same_conversation(other, key) },
        Ghost(test),
    );
    proof {
        let s = keys.deep_view();
        if s.contains(wanted) {
            let i = choose|i: int| 0 <= i < s.len() && s[i] == wanted;
            assert(test(s[i]));
        }
    }
    found
}

/// The conversation that a message belongs to.
pub(crate) fn conversation_of(message: &MessageHeader) -> (key: Option<(AccountId, String)>)
    ensures
        key.deep_view() == message.deep_view().conversation(),
{
    match &message.conversation_id {
        Some(conversation) => Some((message.account_id.clone(), conversation.clone())),
        None => None,
    }
}

/// The loaded members of a conversation.
fn loaded_members<'a>(headers: &Vec<&'a MessageHeader>, key: &(AccountId, String)) -> (members: Vec<&'a MessageHeader>)
    ensures
        members.deep_view() == members_of(headers.deep_view(), key.deep_view()),
{
    let ghost all = headers.deep_view();
    let ghost test = in_conversation(key.deep_view());
    let mut members: Vec<&'a MessageHeader> = Vec::new();
    let mut i: usize = 0;
    assert(all.take(0).filter(test) =~= Seq::<MessageHeaderView>::empty()) by {
        reveal(Seq::filter);
    }
    while i < headers.len()
        invariant
            i <= headers.len(),
            all == headers.deep_view(),
            test == in_conversation(key.deep_view()),
            members.deep_view() == all.take(i as int).filter(test),
        decreases headers.len() - i,
    {
        let ghost before = members.deep_view();
        let message = headers[i];
        assert(all[i as int] == message.deep_view());
        proof {
            assert(all.take(i + 1).drop_last() =~= all.take(i as int));
            reveal(Seq::filter);
        }
        let belongs = match &message.conversation_id {
            Some(conversation) => message.account_id == key.0 && *conversation == key.1,
            None => false,
        };
        if belongs {
            members.push(message);
            assert(members.deep_view() =~= before.push(message.deep_view()));
        }
        i += 1;
    }
    assert(all.take(all.len() as int) =~= all);
    members
}

/// The row that stands for a conversation.
fn row_for(
    members: &Vec<&MessageHeader>,
    key: (AccountId, String),
    expanded: &Vec<(AccountId, String)>,
    totals: &Vec<((AccountId, String), usize)>,
    pinned: &Vec<MessageRef>,
) -> (row: GroupRow)
    ensures
        row.deep_view() == group_row(
            members.deep_view(),
            key.deep_view(),
            expanded.deep_view(),
            totals.deep_view(),
            pinned.deep_view(),
        ),
{
    let ghost all = members.deep_view();
    let mut references: Vec<MessageRef> = Vec::new();
    let mut has_unread = false;
    let mut has_pinned = false;
    let mut i: usize = 0;
    while i < members.len()
        invariant
            i <= members.len(),
            all == members.deep_view(),
            references.len() == i,
            forall|j: int| 0 <= j < i ==> (#[trigger] references[j]).deep_view() == all[j].reference(),
            has_unread == exists|j: int| 0 <= j < i && is_unread()(#[trigger] all[j]),
            has_pinned == exists|j: int| 0 <= j < i && is_pinned(pinned.deep_view())(#[trigger] all[j]),
        decreases members.len() - i,
    {
        let message = members[i];
        assert(all[i as int] == message.deep_view());
        references.push(message.reference());
        if !message.is_read {
            has_unread = true;
        }
        if names_pinned(pinned, message) {
            has_pinned = true;
        }
        i += 1;
    }
    assert(references.deep_view() =~= all.map_values(|message: MessageHeaderView| message.reference()));
    let known = position_where(
        totals,
        |entry: &((AccountId, String), usize)| -> (found: bool)
            ensures
                found == (entry.deep_view().0 == key.deep_view())
            { same_conversation(&entry.0, &key) },
        Ghost(total_for(key.deep_view())),
    );
    let total: usize = match known {
        Some(at) => {
            assert(totals.deep_view()[at as int] == totals[at as int].deep_view());
            if totals[at].1 >= members.len() {
                totals[at].1
            } else {
                members.len()
            }
        },
        None => members.len(),
    };
    let is_expanded = holds_conversation(expanded, &key);
    GroupRow { key, members: references, total, expanded: is_expanded, has_unread, pinned: has_pinned }
}

/// Folds a flat, newest-first header list into conversations, in place.
///
/// A thread takes the position of its newest member, which is the first one
/// encountered. Threads reduced to a single loaded message stay ordinary rows.
pub fn group_message_items<'a>(
    headers: &Vec<&'a MessageHeader>,
    expanded: &Vec<(AccountId, String)>,
    totals: &Vec<((AccountId, String), usize)>,
    pinned: &Vec<MessageRef>,
) -> (items: Vec<MessageListItem<'a>>)
    ensures
        items.deep_view() == grouped_items(
            headers.deep_view(),
            headers.len() as int,
            expanded.deep_view(),
            totals.deep_view(),
            pinned.deep_view(),
        ),
{
    let ghost all = headers.deep_view();
    let mut placed: Vec<(AccountId, String)> = Vec::new();
    let mut items: Vec<MessageListItem<'a>> = Vec::new();
    let mut i: usize = 0;
    while i < headers.len()
        invariant
            i <= headers.len(),
            all == headers.deep_view(),
            items.deep_view() == grouped_items(
                all,
                i as int,
                expanded.deep_view(),
                totals.deep_view(),
                pinned.deep_view(),
            ),
            forall|key: (Seq<char>, Seq<char>)|
                #![trigger placed.deep_view().contains(key)]
                members_of(all, key).len() >= 2 ==> (placed.deep_view().contains(key) <==> all.take(i as int).any(
                    in_conversation(key),
                )),
        decreases headers.len() - i,
    {
        let message = headers[i];
        let ghost before = items.deep_view();
        let ghost placed_before = placed.deep_view();
        let ghost front = all.take(i as int);
        let ghost item = item_at(all, i as int, expanded.deep_view(), totals.deep_view(), pinned.deep_view());
        assert(all[i as int] == message.deep_view());
        assert(all.take(i + 1) =~= front.push(all[i as int]));
        proof {
            assert forall|key: (Seq<char>, Seq<char>)|
                all.take(i + 1).any(in_conversation(key)) <==> #[trigger] front.any(in_conversation(key))
                    || all[i as int].conversation() == Some(key) by {
                lemma_any_push(front, all[i as int], in_conversation(key));
            }
        }
        match conversation_of(message) {
            None => {
                items.push(MessageListItem::Single(message));
                assert(items.deep_view() =~= before.push(MessageListItemView::Single(message.deep_view())));
            },
            Some(key) => {
                let members = loaded_members(headers, &key);
                assert(members.deep_view().len() == members.len());
                if members.len() < 2 {
                    items.push(MessageListItem::Single(message));
                    assert(items.deep_view() =~= before.push(MessageListItemView::Single(message.deep_view())));
                } else if !holds_conversation(&placed, &key) {
                    let row = row_for(&members, (key.0.clone(), key.1.clone()), expanded, totals, pinned);
                    let ghost pushed = key.deep_view();
                    placed.push(key);
                    assert(placed.deep_view() =~= placed_before.push(pushed));
                    let item = MessageListItem::Group { members, row };
                    let ghost shown = item.deep_view();
                    items.push(item);
                    assert(items.deep_view() =~= before.push(shown));
                    proof {
                        assert forall|key: (Seq<char>, Seq<char>)|
                            #![trigger placed.deep_view().contains(key)]
                            members_of(all, key).len() >= 2 implies (placed.deep_view().contains(key)
                            <==> all.take(i + 1).any(in_conversation(key))) by {
                            lemma_contains_push(placed_before, pushed, key);
                            assert(placed_before.contains(key) <==> front.any(in_conversation(key)));
                        }
                    }
                }
            },
        }
        proof {
            assert forall|key: (Seq<char>, Seq<char>)|
                #![trigger placed.deep_view().contains(key)]
                members_of(all, key).len() >= 2 implies (placed.deep_view().contains(key) <==> all.take(i + 1).any(
                in_conversation(key),
            )) by {
                assert(front.any(in_conversation(key)) || !front.any(in_conversation(key)));
            }
        }
        i += 1;
    }
    items
}

pub proof fn lemma_any_push<V>(s: Seq<V>, x: V, p: spec_fn(V) -> bool)
    ensures
        s.push(x).any(p) <==> s.any(p) || p(x),
{
    if s.any(p) {
        let j = choose|j: int| 0 <= j < s.len() && p(s[j]);
        assert(p(s.push(x)[j]));
    }
    if p(x) {
        assert(p(s.push(x)[s.len() as int]));
    }
    if s.push(x).any(p) {
        let j = choose|j: int| 0 <= j < s.push(x).len() && p(s.push(x)[j]);
        if j < s.len() {
            assert(p(s[j]));
        }
    }
}

pub proof fn lemma_contains_push<V>(s: Seq<V>, x: V, y: V)
    ensures
        s.push(x).contains(y) <==> s.contains(y) || x == y,
{
    if s.contains(y) {
        let j = choose|j: int| 0 <= j < s.len() && s[j] == y;
        assert(s.push(x)[j] == y);
    }
    if x == y {
        assert(s.push(x)[s.len() as int] == y);
    }
}


} // verus!
