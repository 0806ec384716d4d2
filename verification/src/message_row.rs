//! A row of a message list: what it shows and what clicks on it do.
use crate::account_map::AccountMap;
use crate::app::{is_text, storage_key, tag_storage_key};
use crate::folder_tree::{Label, LabelView};
use crate::list_entries::holds_text;
use crate::lists::{all_where, any_where, first_where, lemma_first_index, position_where};
use crate::message_list::{GroupRow, GroupRowView, MsgEntry};
use crate::model::{
    clone_list, AccountId, LastAction, MessageHeader, MessageHeaderView, MessageRef, MessageRefView, Provider, Tag, TagView,
};
use crate::selection::{holds_ref, ordered_refs};
use crate::settings::deadline;
use crate::state::{
    AviaryApp, Effect, EffectView, FilterState, MailboxState, MainView,
};
use vstd::prelude::*;

verus! {

/// How many tags a row shows.
pub const ROW_TAGS: usize = 3;

/// The date that a row shows: when a message that is put off comes back, or when it came.
#[derive(Debug, PartialEq, Eq)]
pub enum RowDate {
    Deadline { until: i128 },
    Time { received: i128 },
    Day { received: i128 },
}

/// Mathematical form of [`RowDate`].
#[verifier::ext_equal]
pub enum RowDateView {
    Deadline { until: i128 },
    Time { received: i128 },
    Day { received: i128 },
}

impl DeepView for RowDate {
    type V = RowDateView;

    open spec fn deep_view(&self) -> RowDateView {
        match self {
            RowDate::Deadline { until } => RowDateView::Deadline { until: *until },
            RowDate::Time { received } => RowDateView::Time { received: *received },
            RowDate::Day { received } => RowDateView::Day { received: *received },
        }
    }
}

/// A tag on a row; a click filters the list by it.
#[derive(Debug, PartialEq, Eq)]
pub struct TagPill {
    pub label: String,
    pub tag_id: String,
    pub color: Option<u32>,
    /// Whether the account knows the tag.
    pub known: bool,
    /// Whether the list is filtered by it.
    pub selected: bool,
    /// Whether it is the only filter.
    pub only_filter: bool,
}

/// Mathematical form of [`TagPill`].
#[verifier::ext_equal]
pub struct TagPillView {
    pub label: Seq<char>,
    pub tag_id: Seq<char>,
    pub color: Option<u32>,
    pub known: bool,
    pub selected: bool,
    pub only_filter: bool,
}

impl DeepView for TagPill {
    type V = TagPillView;

    open spec fn deep_view(&self) -> TagPillView {
        TagPillView {
            label: self.label.deep_view(),
            tag_id: self.tag_id.deep_view(),
            color: self.color,
            known: self.known,
            selected: self.selected,
            only_filter: self.only_filter,
        }
    }
}

/// What a row shows.
#[derive(Debug, PartialEq, Eq)]
pub struct MessageRow {
    pub reference: MessageRef,
    /// Whether a dot in the color of the account stands on the row.
    pub account_dot: bool,
    pub color_override: Option<u32>,
    pub selected: bool,
    /// Whether the row has a box to tick.
    pub bulk_active: bool,
    pub bulk_selected: bool,
    pub is_read: bool,
    pub is_flagged: bool,
    pub is_pinned: bool,
    pub highlight_flagged: bool,
    /// For the head of a conversation: whether it is unfolded.
    pub expanded: Option<bool>,
    /// The loaded messages of the conversation that the row heads.
    pub members: Vec<MessageRef>,
    /// Size of the conversation that the row heads.
    pub total: Option<usize>,
    pub action_icon: Option<&'static str>,
    pub has_attachments: bool,
    pub date: RowDate,
    pub pin_icon: &'static str,
    pub subject: Label,
    pub tags: Vec<TagPill>,
    pub quick_actions: bool,
    /// The messages that the menu of a folded conversation acts on.
    pub menu_thread: Vec<MessageRef>,
}

/// Mathematical form of [`MessageRow`].
#[verifier::ext_equal]
pub struct MessageRowView {
    pub reference: MessageRefView,
    pub account_dot: bool,
    pub color_override: Option<u32>,
    pub selected: bool,
    pub bulk_active: bool,
    pub bulk_selected: bool,
    pub is_read: bool,
    pub is_flagged: bool,
    pub is_pinned: bool,
    pub highlight_flagged: bool,
    pub expanded: Option<bool>,
    pub members: Seq<MessageRefView>,
    pub total: Option<usize>,
    pub action_icon: Option<Seq<char>>,
    pub has_attachments: bool,
    pub date: RowDateView,
    pub pin_icon: Seq<char>,
    pub subject: LabelView,
    pub tags: Seq<TagPillView>,
    pub quick_actions: bool,
    pub menu_thread: Seq<MessageRefView>,
}

impl DeepView for MessageRow {
    type V = MessageRowView;

    open spec fn deep_view(&self) -> MessageRowView {
        MessageRowView {
            reference: self.reference.deep_view(),
            account_dot: self.account_dot,
            color_override: self.color_override,
            selected: self.selected,
            bulk_active: self.bulk_active,
            bulk_selected: self.bulk_selected,
            is_read: self.is_read,
            is_flagged: self.is_flagged,
            is_pinned: self.is_pinned,
            highlight_flagged: self.highlight_flagged,
            expanded: self.expanded,
            members: self.members.deep_view(),
            total: self.total,
            action_icon: self.action_icon.deep_view(),
            has_attachments: self.has_attachments,
            date: self.date.deep_view(),
            pin_icon: self.pin_icon.deep_view(),
            subject: self.subject.deep_view(),
            tags: self.tags.deep_view(),
            quick_actions: self.quick_actions,
            menu_thread: self.menu_thread.deep_view(),
        }
    }
}


/// How many tags the list is filtered by.
pub open spec fn filter_count(entries: Seq<(AccountId, Vec<String>)>) -> nat
    decreases entries.len(),
{
    if entries.len() == 0 {
        0
    } else {
        filter_count(entries.drop_last()) + entries.last().1@.len()
    }
}

/// How many tags the list is filtered by.
pub fn count_filters(filters: &AccountMap<Vec<String>>) -> (count: u128)
    ensures
        count == filter_count(filters.entries@),
{
    let ghost all = filters.entries@;
    let mut count: u128 = 0;
    let mut i: usize = 0;
    while i < filters.entries.len()
        invariant
            i <= filters.entries.len(),
            all == filters.entries@,
            count == filter_count(all.take(i as int)),
            count <= i * 0xffff_ffff_ffff_ffff,
        decreases filters.entries.len() - i,
    {
        assert(all.take(i + 1).drop_last() =~= all.take(i as int));
        count = count + filters.entries[i].1.len() as u128;
        i += 1;
    }
    assert(all.take(all.len() as int) =~= all);
    count
}

/// Whether a list is filtered by a tag of an account.
pub open spec fn filters_by(filters: AccountMap<Vec<String>>, account_id: Seq<char>, tag_id: Seq<char>) -> bool {
    filters@.contains_key(account_id) && filters@[account_id].deep_view().contains(tag_id)
}

/// Whether a list is filtered by a tag of an account.
pub fn is_filter(filters: &AccountMap<Vec<String>>, account_id: &AccountId, tag_id: &String) -> (yes: bool)
    ensures
        yes == filters_by(*filters, account_id.0@, tag_id@),
{
    match filters.get(account_id) {
        Some(ids) => holds_text(ids, tag_id),
        None => false,
    }
}

/// Whether a tag is stored on messages under the given key.
pub open spec fn stored_as(provider: Provider, key: Seq<char>) -> spec_fn(TagView) -> bool {
    |tag: TagView| storage_key(provider, tag) == key
}

/// Whether a message is the selected one of its account.
pub open spec fn member_selected(account_id: Seq<char>, selected: Option<Seq<char>>) -> spec_fn(MessageRefView) -> bool {
    |member: MessageRefView| member.account_id == account_id && selected == Some(member.id)
}

/// Whether a message is ticked.
pub open spec fn ticked(selection: Seq<MessageRefView>) -> spec_fn(MessageRefView) -> bool {
    |member: MessageRefView| selection.contains(member)
}

/// The icon for what was last done with a message.
pub open spec fn action_icon_of(action: LastAction) -> Seq<char> {
    match action {
        LastAction::Forwarded => "forward"@,
        _ => "reply"@,
    }
}

/// The date that a row shows.
pub open spec fn row_date(until: Option<i128>, time_only: bool, received: i128) -> RowDateView {
    match until {
        Some(until) => RowDateView::Deadline { until },
        None => if time_only {
            RowDateView::Time { received }
        } else {
            RowDateView::Day { received }
        },
    }
}

/// The subject, or words for the lack of one.
pub open spec fn subject_label(subject: Seq<char>) -> LabelView {
    if subject.len() == 0 {
        LabelView::Key("no-subject"@)
    } else {
        LabelView::Text(subject)
    }
}

/// The subject, or words for the lack of one.
pub fn label_of_subject(subject: &String) -> (label: Label)
    ensures
        label.deep_view() == subject_label(subject@),
{
    if subject.as_str().is_empty() {
        Label::Key("no-subject")
    } else {
        Label::Text(subject.clone())
    }
}

impl AviaryApp {
    /// The tags that an account knows.
    pub open spec fn known_tags(self, account_id: Seq<char>) -> Seq<TagView> {
        if self.tags.by_account@.contains_key(account_id) {
            self.tags.by_account@[account_id].deep_view()
        } else {
            Seq::empty()
        }
    }

    /// The pill of a tag that messages of an account carry under `key`.
    pub open spec fn pill(self, account_id: Seq<char>, key: Seq<char>) -> TagPillView {
        let found = first_where(self.known_tags(account_id), stored_as(self.provider_of(account_id), key));
        let tag_id = match found {
            Some(tag) => tag.id,
            None => key,
        };
        let selected = filters_by(self.mailbox.filters.tag_filters, account_id, tag_id);
        TagPillView {
            label: match found {
                Some(tag) => tag.display_name,
                None => key,
            },
            tag_id,
            color: match found {
                Some(tag) => tag.color,
                None => None,
            },
            known: found is Some,
            selected,
            only_filter: selected && filter_count(self.mailbox.filters.tag_filters.entries@) == 1,
        }
    }

    /// The pills of a row: those of the first tags of its message.
    pub open spec fn pills(self, header: MessageHeaderView) -> Seq<TagPillView> {
        crate::search_panel::at_most(header.tags, ROW_TAGS as int).map_values(
            |key: Seq<char>| self.pill(header.account_id, key),
        )
    }

    fn tag_pill(&self, account_id: &AccountId, key: &String) -> (pill: TagPill)
        ensures
            pill.deep_view() == self.pill(account_id.0@, key@),
    {
        let provider = self.provider(account_id);
        let ghost known = self.known_tags(account_id.0@);
        proof {
            lemma_first_index(known, stored_as(provider, key@));
        }
        let found: Option<&Tag> = match self.tags.by_account.get(account_id) {
            Some(tags) => {
                let place = position_where(
                    tags,
                    |tag: &Tag| -> (same: bool)
                        ensures
                            same == (storage_key(provider, tag.deep_view()) == key@)
                        { tag_storage_key(provider, tag) == *key },
                    Ghost(stored_as(provider, key@)),
                );
                match place {
                    Some(i) => {
                        assert(known[i as int] == tags[i as int].deep_view());
                        Some(&tags[i])
                    },
                    None => None,
                }
            },
            None => None,
        };
        let (label, color, tag_id, known) = match found {
            Some(tag) => (tag.display_name.clone(), tag.color, tag.id.clone(), true),
            None => (key.clone(), None, key.clone(), false),
        };
        let selected = is_filter(&self.mailbox.filters.tag_filters, account_id, &tag_id);
        let only_filter = selected && count_filters(&self.mailbox.filters.tag_filters) == 1;
        TagPill { label, tag_id, color, known, selected, only_filter }
    }

    /// The pills of a row.
    pub fn row_tag_pills(&self, header: &MessageHeader) -> (pills: Vec<TagPill>)
        ensures
            pills.deep_view() == self.pills(header.deep_view()),
    {
        let mut pills: Vec<TagPill> = Vec::new();
        let mut i: usize = 0;
        while i < header.tags.len() && i < ROW_TAGS
            invariant
                i <= header.tags.len(),
                i <= ROW_TAGS,
                pills.len() == i,
                forall|j: int|
                    0 <= j < i ==> (#[trigger] pills[j]).deep_view() == self.pill(
                        header.deep_view().account_id,
                        header.deep_view().tags[j],
                    ),
            decreases header.tags.len() - i,
        {
            assert(header.deep_view().tags[i as int] == header.tags[i as int].deep_view());
            pills.push(self.tag_pill(&header.account_id, &header.tags[i]));
            i += 1;
        }
        assert(pills.deep_view() =~= self.pills(header.deep_view()));
        pills
    }

    /// Filters the list by one tag alone, or by none where that tag was the only filter.
    pub fn filter_by_tag(&mut self, account_id: AccountId, tag_id: String, only_filter: bool)
        ensures
            if only_filter {
                final(self).mailbox.filters.tag_filters@ == Map::<Seq<char>, Vec<String>>::empty()
            } else {
                &&& final(self).mailbox.filters.tag_filters@.dom() == set![account_id.0@]
                &&& final(self).mailbox.filters.tag_filters@[account_id.0@].deep_view() == seq![tag_id@]
            },
            final(self).mailbox.filters == (FilterState {
                tag_filters: final(self).mailbox.filters.tag_filters,
                ..old(self).mailbox.filters
            }),
            final(self).asked(*old(self), seq![EffectView::EnterView { view: MainView::Mail }]),
            *final(self) == (AviaryApp {
                mailbox: MailboxState { filters: final(self).mailbox.filters, ..old(self).mailbox },
                message_list_revision: old(self).next_revision(),
                effects: final(self).effects,
                ..*old(self)
            }),
    {
        let mut filters: AccountMap<Vec<String>> = AccountMap::new();
        if !only_filter {
            let ghost id = account_id.0@;
            let mut ids: Vec<String> = Vec::new();
            ids.push(tag_id);
            assert(ids.deep_view() =~= seq![tag_id@]);
            filters.insert(account_id, ids);
            assert(filters@.dom() =~= set![id]);
        }
        self.mailbox.filters.tag_filters = filters;
        self.invalidate_message_list();
        self.send(Effect::EnterView { view: MainView::Mail });
    }

    /// Whether a row looks selected: a conversation does when one of its messages is
    /// being read.
    pub open spec fn row_selected(self, header: MessageHeaderView, group: Option<GroupRowView>) -> bool {
        let selected = self.mailbox.viewer.selected_id.deep_view();
        match group {
            Some(group) => group.members.any(member_selected(header.account_id, selected)),
            None => selected == Some(header.id),
        }
    }

    /// Whether the box of a row is ticked: that of a conversation is when all its loaded
    /// messages are.
    pub open spec fn row_ticked(self, header: MessageHeaderView, group: Option<GroupRowView>) -> bool {
        let selection = self.mailbox.selection.messages.deep_view();
        match group {
            Some(group) => group.members.all(ticked(selection)),
            None => selection.contains(header.reference()),
        }
    }

    /// What a row shows. `group` is the conversation that it heads.
    pub open spec fn row(
        self,
        header: MessageHeaderView,
        show_account: bool,
        time_only: bool,
        in_mailbox: bool,
        group: Option<GroupRowView>,
    ) -> MessageRowView {
        let bulk_active = in_mailbox && self.mailbox.selection.messages.len() > 0;
        let is_pinned = match group {
            Some(group) => group.pinned,
            None => self.pinned(header),
        };
        MessageRowView {
            reference: header.reference(),
            account_dot: show_account,
            color_override: self.settings.account_view(header.account_id).color_override,
            selected: self.row_selected(header, group),
            bulk_active,
            bulk_selected: bulk_active && self.row_ticked(header, group),
            is_read: match group {
                Some(group) => !group.has_unread,
                None => header.is_read,
            },
            is_flagged: header.is_flagged,
            is_pinned,
            highlight_flagged: header.is_flagged && (!is_pinned || !in_mailbox),
            expanded: match group {
                Some(group) => Some(group.expanded),
                None => None,
            },
            members: match group {
                Some(group) => group.members,
                None => Seq::empty(),
            },
            total: match group {
                Some(group) => Some(group.total),
                None => None,
            },
            action_icon: match header.last_action {
                Some(action) => Some(action_icon_of(action)),
                None => None,
            },
            has_attachments: header.has_attachments,
            date: row_date(
                deadline(self.settings.account_view(header.account_id).snoozed_messages, header.id),
                time_only,
                header.received,
            ),
            pin_icon: if is_pinned {
                "pin"@
            } else {
                "pin-off"@
            },
            subject: subject_label(header.subject),
            tags: self.pills(header),
            quick_actions: !bulk_active && self.actions_of(header.account_id).len() > 0,
            menu_thread: match group {
                Some(group) if !group.expanded => group.members,
                _ => Seq::empty(),
            },
        }
    }

    fn row_is_selected(&self, header: &MessageHeader, group: Option<&GroupRow>) -> (selected: bool)
        ensures
            selected == self.row_selected(header.deep_view(), group.deep_view()),
    {
        match group {
            Some(group) => any_where(
                &group.members,
                |member: &MessageRef| -> (same: bool)
                    ensures
                        same == member_selected(
                            header.deep_view().account_id,
                            self.mailbox.viewer.selected_id.deep_view(),
                        )(member.deep_view())
                    { member.account_id == header.account_id && is_text(&self.mailbox.viewer.selected_id, &member.id) },
                Ghost(member_selected(header.deep_view().account_id, self.mailbox.viewer.selected_id.deep_view())),
            ),
            None => is_text(&self.mailbox.viewer.selected_id, &header.id),
        }
    }

    fn row_is_ticked(&self, header: &MessageHeader, group: Option<&GroupRow>) -> (yes: bool)
        ensures
            yes == self.row_ticked(header.deep_view(), group.deep_view()),
    {
        match group {
            Some(group) => all_where(
                &group.members,
                |member: &MessageRef| -> (same: bool)
                    ensures
                        same == self.mailbox.selection.messages.deep_view().contains(member.deep_view())
                    { holds_ref(&self.mailbox.selection.messages, member) },
                Ghost(ticked(self.mailbox.selection.messages.deep_view())),
            ),
            None => holds_ref(&self.mailbox.selection.messages, &header.reference()),
        }
    }

    fn row_date_of(&self, header: &MessageHeader, time_only: bool) -> (date: RowDate)
        ensures
            date.deep_view() == row_date(
                deadline(self.settings.account_view(header.account_id.0@).snoozed_messages, header.id@),
                time_only,
                header.received,
            ),
    {
        match self.settings.snoozed_until(&header.account_id, header.id.as_str()) {
            Some(until) => RowDate::Deadline { until },
            None => if time_only {
                RowDate::Time { received: header.received }
            } else {
                RowDate::Day { received: header.received }
            },
        }
    }

    /// What a row shows. `group` is the conversation that it heads.
    pub fn message_row_inner(
        &self,
        header: &MessageHeader,
        show_account: bool,
        time_only: bool,
        in_mailbox: bool,
        group: Option<&GroupRow>,
    ) -> (row: MessageRow)
        ensures
            row.deep_view() == self.row(header.deep_view(), show_account, time_only, in_mailbox, group.deep_view()),
    {
        let bulk_active = in_mailbox && self.mailbox.selection.messages.len() > 0;
        let is_pinned = match group {
            Some(group) => group.pinned,
            None => self.is_message_pinned(header),
        };
        let is_read = match group {
            Some(group) => !group.has_unread,
            None => header.is_read,
        };
        let color_override = match self.settings.accounts.get(&header.account_id) {
            Some(account) => account.color_override,
            None => None,
        };
        let quick_actions = !bulk_active && (match self.quick_actions_for(&header.account_id) {
            Some(actions) => actions.len() > 0,
            None => false,
        });
        let (expanded, total, members, menu_thread): (Option<bool>, Option<usize>, Vec<MessageRef>, Vec<MessageRef>) =
            match group {
            Some(group) => (
                Some(group.expanded),
                Some(group.total),
                clone_list(&group.members),
                if group.expanded {
                    Vec::new()
                } else {
                    clone_list(&group.members)
                },
            ),
            None => (None, None, Vec::new(), Vec::new()),
        };
        let action_icon: Option<&'static str> = match header.last_action {
            Some(LastAction::Forwarded) => Some("forward"),
            Some(_) => Some("reply"),
            None => None,
        };
        let row = MessageRow {
            reference: header.reference(),
            account_dot: show_account,
            color_override,
            selected: self.row_is_selected(header, group),
            bulk_active,
            bulk_selected: bulk_active && self.row_is_ticked(header, group),
            is_read,
            is_flagged: header.is_flagged,
            is_pinned,
            highlight_flagged: header.is_flagged && (!is_pinned || !in_mailbox),
            expanded,
            members,
            total,
            action_icon,
            has_attachments: header.has_attachments,
            date: self.row_date_of(header, time_only),
            pin_icon: if is_pinned {
                "pin"
            } else {
                "pin-off"
            },
            subject: label_of_subject(&header.subject),
            tags: self.row_tag_pills(header),
            quick_actions,
            menu_thread,
        };
        proof {
            let wanted = self.row(header.deep_view(), show_account, time_only, in_mailbox, group.deep_view());
            assert(row.deep_view().members =~= wanted.members);
            assert(row.deep_view().menu_thread =~= wanted.menu_thread);
            assert(row.deep_view() =~= wanted);
        }
        row
    }

    /// What a row shows outside the mailbox, where messages are not grouped.
    pub fn message_row(&self, header: &MessageHeader, show_account: bool, in_mailbox: bool) -> (row: MessageRow)
        ensures
            row.deep_view() == self.row(header.deep_view(), show_account, false, in_mailbox, None),
    {
        self.message_row_inner(header, show_account, false, in_mailbox, None)
    }

    /// A click on a row: with shift it selects up to here, with the secondary modifier it
    /// ticks the row, and otherwise it opens the message. Only rows of the mailbox can be
    /// selected.
    pub fn click_message_row(
        &mut self,
        reference: MessageRef,
        in_mailbox: bool,
        shift: bool,
        secondary: bool,
        entries: &Vec<MsgEntry>,
    )
        ensures
            final(self).selection_state() == (if in_mailbox && shift {
                Self::extended(old(self).selection_state(), ordered_refs(entries.deep_view()), reference.deep_view())
            } else if in_mailbox && secondary {
                Self::toggled(
                    old(self).selection_state(),
                    reference.deep_view(),
                    !old(self).selection_state().0.contains(reference.deep_view()),
                )
            } else {
                (Seq::empty(), Some(reference.deep_view()))
            }),
            final(self).asked(
                *old(self),
                if in_mailbox && (shift || secondary) {
                    Seq::empty()
                } else {
                    seq![EffectView::OpenMessage { account_id: reference.account_id.0@, id: reference.id@ }]
                },
            ),
            *final(self) == (AviaryApp {
                mailbox: MailboxState { selection: final(self).mailbox.selection, ..old(self).mailbox },
                effects: final(self).effects,
                ..*old(self)
            }),
    {
        assert(self.effects.deep_view() =~= old(self).effects.deep_view() + Seq::<EffectView>::empty());
        if in_mailbox && shift {
            self.select_message_range(reference, entries);
            return;
        }
        if in_mailbox && secondary {
            let checked = !holds_ref(&self.mailbox.selection.messages, &reference);
            self.toggle_message_selection(reference, checked);
            return;
        }
        self.clear_message_selection();
        let account_id = reference.account_id.clone();
        let id = reference.id.clone();
        self.mailbox.selection.anchor = Some(reference);
        self.send(Effect::OpenMessage { account_id, id });
    }

    /// A click on the star of a row: nothing while the account is offline.
    pub fn click_star(&mut self, reference: MessageRef, is_flagged: bool)
        ensures
            final(self).asked(
                *old(self),
                if old(self).offline_accounts.deep_view().contains(reference.account_id.0@) {
                    Seq::empty()
                } else {
                    seq![
                        EffectView::SetFlag {
                            reference: reference.deep_view(),
                            flagged: !is_flagged,
                            before: is_flagged,
                        },
                    ]
                },
            ),
            *final(self) == (AviaryApp { effects: final(self).effects, ..*old(self) }),
    {
        assert(self.effects.deep_view() =~= old(self).effects.deep_view() + Seq::<EffectView>::empty());
        if crate::app::holds_account(&self.offline_accounts, &reference.account_id) {
            return;
        }
        self.send(Effect::SetFlag { reference, flagged: !is_flagged, before: is_flagged });
    }

    /// What pins a row or unpins it: a conversation with all its loaded messages.
    pub open spec fn pin_ask(reference: MessageRefView, thread: Seq<MessageRefView>, pinned: bool) -> EffectView {
        if thread.len() > 0 {
            EffectView::PinAll { references: thread, pinned }
        } else {
            EffectView::SetPinned { account_id: reference.account_id, id: reference.id, pinned }
        }
    }

    /// A click on the pin of a row.
    pub fn click_pin(&mut self, row: &MessageRow)
        ensures
            final(self).asked(
                *old(self),
                seq![Self::pin_ask(row.deep_view().reference, row.deep_view().members, !row.is_pinned)],
            ),
            *final(self) == (AviaryApp { effects: final(self).effects, ..*old(self) }),
    {
        if row.members.len() > 0 {
            self.send(Effect::PinAll { references: clone_list(&row.members), pinned: !row.is_pinned });
        } else {
            self.send(
                Effect::SetPinned {
                    account_id: row.reference.account_id.clone(),
                    id: row.reference.id.clone(),
                    pinned: !row.is_pinned,
                },
            );
        }
    }
}

} // verus!
