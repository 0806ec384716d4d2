//! The message pane: filters, the toolbar of a selection, and what stands below them.
use crate::account_map::AccountMap;
use crate::app::{account_named, holds_account};
use crate::folder_tree::{well_known, well_known_folder, WellKnownFolder};
use crate::list_entries::holds_text;
use crate::lists::{all_where, any_where, first_where, lemma_first_index, position_where};
use crate::message_list::{MsgEntry, MsgEntryView, SectionLabel};
use crate::message_row::{count_filters, filter_count, filters_by, is_filter, MessageRow, MessageRowView};
use crate::model::{
    Account, AccountId, AccountView, MailFolder, MailFolderView, MessageHeaderView, MessageRef, MessageRefView, Tag,
    TagView,
};
use crate::move_targets::{has_move_folder_targets, not_selected};
use crate::navigation::flipped;
use crate::selection::state_of_header;
use crate::settings::{other_text, remove_text, AccountSettings};
use crate::state::{
    AviaryApp, Effect, EffectView, Filing, FilterState, MailboxState, MessageMark, MessageMarkView,
};
use vstd::prelude::*;

verus! {

/// Buttons of the toolbar of a selection.
#[derive(Debug, Clone, Copy, PartialEq, Eq, Structural)]
pub enum BulkButton {
    MarkRead,
    MarkUnread,
    Flag,
    Unflag,
    Move,
    Archive,
    Junk,
    NotJunk,
    Snooze,
    Delete,
    Clear,
}

impl DeepView for BulkButton {
    type V = BulkButton;

    open spec fn deep_view(&self) -> BulkButton {
        *self
    }
}

/// The toolbar of a selection.
#[derive(Debug, PartialEq, Eq)]
pub struct BulkToolbar {
    /// How many of the messages that are shown are selected.
    pub count: usize,
    /// Whether all of them are.
    pub all_selected: bool,
    /// Whether they belong to one account, as moving them takes.
    pub one_account: bool,
    /// The buttons, each with whether it can be pressed.
    pub buttons: Vec<(BulkButton, bool)>,
}

/// Mathematical form of [`BulkToolbar`].
#[verifier::ext_equal]
pub struct BulkToolbarView {
    pub count: usize,
    pub all_selected: bool,
    pub one_account: bool,
    pub buttons: Seq<(BulkButton, bool)>,
}

impl DeepView for BulkToolbar {
    type V = BulkToolbarView;

    open spec fn deep_view(&self) -> BulkToolbarView {
        BulkToolbarView {
            count: self.count,
            all_selected: self.all_selected,
            one_account: self.one_account,
            buttons: self.buttons.deep_view(),
        }
    }
}

/// A line of the menu of tags that the list can be filtered by.
#[derive(Debug, PartialEq, Eq)]
pub enum TagMenuLine {
    /// A line between groups.
    Rule,
    /// Name of the account whose tags follow.
    Heading { label: String },
    Entry { account_id: AccountId, tag: Tag, checked: bool },
    NoTags,
    ClearFilters,
}

/// Mathematical form of [`TagMenuLine`].
#[verifier::ext_equal]
pub enum TagMenuLineView {
    Rule,
    Heading { label: Seq<char> },
    Entry { account_id: Seq<char>, tag: TagView, checked: bool },
    NoTags,
    ClearFilters,
}

impl DeepView for TagMenuLine {
    type V = TagMenuLineView;

    open spec fn deep_view(&self) -> TagMenuLineView {
        match self {
            TagMenuLine::Rule => TagMenuLineView::Rule,
            TagMenuLine::Heading { label } => TagMenuLineView::Heading { label: label.deep_view() },
            TagMenuLine::Entry { account_id, tag, checked } => TagMenuLineView::Entry { account_id: account_id.deep_view(), tag: tag.deep_view(), checked: *checked },
            TagMenuLine::NoTags => TagMenuLineView::NoTags,
            TagMenuLine::ClearFilters => TagMenuLineView::ClearFilters,
        }
    }
}

/// The search field and the filters beside it.
#[derive(Debug, PartialEq, Eq)]
pub struct FilterBar {
    pub offline: bool,
    pub filtering_tags: bool,
    /// How many tags the list is filtered by.
    pub tag_count: u128,
    /// The tag whose color the icon of the tags has.
    pub marked_tag: Option<Tag>,
    pub tag_menu: Vec<TagMenuLine>,
    pub flagged_only: bool,
    /// Whether the filter for messages that are put off is offered.
    pub snoozed_offered: bool,
    pub snoozed_only: bool,
}

/// Mathematical form of [`FilterBar`].
#[verifier::ext_equal]
pub struct FilterBarView {
    pub offline: bool,
    pub filtering_tags: bool,
    pub tag_count: u128,
    pub marked_tag: Option<TagView>,
    pub tag_menu: Seq<TagMenuLineView>,
    pub flagged_only: bool,
    pub snoozed_offered: bool,
    pub snoozed_only: bool,
}

impl DeepView for FilterBar {
    type V = FilterBarView;

    open spec fn deep_view(&self) -> FilterBarView {
        FilterBarView {
            offline: self.offline,
            filtering_tags: self.filtering_tags,
            tag_count: self.tag_count,
            marked_tag: self.marked_tag.deep_view(),
            tag_menu: self.tag_menu.deep_view(),
            flagged_only: self.flagged_only,
            snoozed_offered: self.snoozed_offered,
            snoozed_only: self.snoozed_only,
        }
    }
}

/// What stands below the filters.
#[derive(Debug, PartialEq, Eq)]
pub enum PaneBody {
    Loading,
    Empty { key: &'static str },
    List,
}

/// Mathematical form of [`PaneBody`].
#[verifier::ext_equal]
pub enum PaneBodyView {
    Loading,
    Empty { key: Seq<char> },
    List,
}

impl DeepView for PaneBody {
    type V = PaneBodyView;

    open spec fn deep_view(&self) -> PaneBodyView {
        match self {
            PaneBody::Loading => PaneBodyView::Loading,
            PaneBody::Empty { key } => PaneBodyView::Empty { key: key.deep_view() },
            PaneBody::List => PaneBodyView::List,
        }
    }
}

/// The message pane.
#[derive(Debug, PartialEq, Eq)]
pub struct MessagesPane {
    /// Whether the toolbar of a selection takes the place of the filters.
    pub selecting: bool,
    /// What the results that are shown were searched for.
    pub query: Option<String>,
    pub body: PaneBody,
    pub loading_more: bool,
}

/// Mathematical form of [`MessagesPane`].
#[verifier::ext_equal]
pub struct MessagesPaneView {
    pub selecting: bool,
    pub query: Option<Seq<char>>,
    pub body: PaneBodyView,
    pub loading_more: bool,
}

impl DeepView for MessagesPane {
    type V = MessagesPaneView;

    open spec fn deep_view(&self) -> MessagesPaneView {
        MessagesPaneView {
            selecting: self.selecting,
            query: self.query.deep_view(),
            body: self.body.deep_view(),
            loading_more: self.loading_more,
        }
    }
}

/// A line of the list.
#[derive(Debug, PartialEq, Eq)]
pub enum ListLine {
    Nothing,
    Section { key: String, label: SectionLabel, count: usize, pinned: bool, collapsed: bool },
    Row { row: MessageRow, pinned: bool, section_end: bool, in_group: bool },
}

/// Mathematical form of [`ListLine`].
#[verifier::ext_equal]
pub enum ListLineView {
    Nothing,
    Section { key: Seq<char>, label: SectionLabel, count: usize, pinned: bool, collapsed: bool },
    Row { row: MessageRowView, pinned: bool, section_end: bool, in_group: bool },
}

impl DeepView for ListLine {
    type V = ListLineView;

    open spec fn deep_view(&self) -> ListLineView {
        match self {
            ListLine::Nothing => ListLineView::Nothing,
            ListLine::Section { key, label, count, pinned, collapsed } => ListLineView::Section { key: key.deep_view(), label: *label, count: *count, pinned: *pinned, collapsed: *collapsed },
            ListLine::Row { row, pinned, section_end, in_group } => ListLineView::Row { row: row.deep_view(), pinned: *pinned, section_end: *section_end, in_group: *in_group },
        }
    }
}


/// Whether a folder is the one for junk.
pub open spec fn is_junk() -> spec_fn(MailFolderView) -> bool {
    |folder: MailFolderView| well_known(folder.well_known_name) == Some(WellKnownFolder::JunkEmail)
}

/// Whether a message belongs to the given account.
pub open spec fn of_account(account_id: Seq<char>) -> spec_fn(MessageRefView) -> bool {
    |reference: MessageRefView| reference.account_id == account_id
}

/// The account that all of `references` belong to.
pub open spec fn single_account(references: Seq<MessageRefView>) -> Option<Seq<char>> {
    if references.len() > 0 && references.all(of_account(references[0].account_id)) {
        Some(references[0].account_id)
    } else {
        None
    }
}

/// Whether a message belongs to one of `accounts`.
pub open spec fn in_accounts(accounts: Seq<Seq<char>>) -> spec_fn(MessageRefView) -> bool {
    |reference: MessageRefView| accounts.contains(reference.account_id)
}

/// The account that all of `references` belong to.
pub fn account_of_all(references: &Vec<MessageRef>) -> (account_id: Option<AccountId>)
    ensures
        account_id.deep_view() == single_account(references.deep_view()),
{
    if references.len() == 0 {
        return None;
    }
    let first = references[0].account_id.clone();
    assert(references.deep_view()[0] == references[0].deep_view());
    let same = all_where(
        references,
        |reference: &MessageRef| -> (same: bool)
            ensures
                same == (reference.deep_view().account_id == first.0@)
            { reference.account_id == first },
        Ghost(of_account(first.0@)),
    );
    if same {
        Some(first)
    } else {
        None
    }
}

/// The reference of each state.
pub open spec fn refs_of(states: Seq<(MessageRefView, bool, bool)>) -> Seq<MessageRefView> {
    states.map_values(|state: (MessageRefView, bool, bool)| state.0)
}

/// How each message is marked: as read, or as flagged.
pub open spec fn marks_of(states: Seq<(MessageRefView, bool, bool)>, flags: bool) -> Seq<MessageMarkView> {
    states.map_values(
        |state: (MessageRefView, bool, bool)|
            MessageMarkView {
                reference: state.0,
                marked: if flags {
                    state.2
                } else {
                    state.1
                },
            },
    )
}

/// The reference of each state.
pub fn collect_refs(states: &Vec<(MessageRef, bool, bool)>) -> (references: Vec<MessageRef>)
    ensures
        references.deep_view() == refs_of(states.deep_view()),
{
    let mut references: Vec<MessageRef> = Vec::new();
    let mut i: usize = 0;
    while i < states.len()
        invariant
            i <= states.len(),
            references.len() == i,
            forall|j: int| 0 <= j < i ==> (#[trigger] references[j]).deep_view() == states[j].0.deep_view(),
        decreases states.len() - i,
    {
        references.push(states[i].0.clone());
        i += 1;
    }
    assert(references.deep_view() =~= refs_of(states.deep_view()));
    references
}

/// How each message is marked: as read, or as flagged.
pub fn collect_marks(states: &Vec<(MessageRef, bool, bool)>, flags: bool) -> (marks: Vec<MessageMark>)
    ensures
        marks.deep_view() == marks_of(states.deep_view(), flags),
{
    let mut marks: Vec<MessageMark> = Vec::new();
    let mut i: usize = 0;
    while i < states.len()
        invariant
            i <= states.len(),
            marks.len() == i,
            forall|j: int|
                0 <= j < i ==> (#[trigger] marks[j]).deep_view() == (MessageMarkView {
                    reference: states[j].0.deep_view(),
                    marked: if flags {
                        states[j].2
                    } else {
                        states[j].1
                    },
                }),
        decreases states.len() - i,
    {
        let marked = if flags {
            states[i].2
        } else {
            states[i].1
        };
        marks.push(MessageMark { reference: states[i].0.clone(), marked });
        i += 1;
    }
    assert(marks.deep_view() =~= marks_of(states.deep_view(), flags));
    marks
}

/// What the buttons of the toolbar are. The junk button stands between archiving and
/// putting off.
pub open spec fn bulk_buttons(offline: bool, can_move: bool, junk: Option<bool>) -> Seq<(BulkButton, bool)> {
    seq![
        (BulkButton::MarkRead, !offline),
        (BulkButton::MarkUnread, !offline),
        (BulkButton::Flag, !offline),
        (BulkButton::Unflag, !offline),
        (BulkButton::Move, !offline && can_move),
        (BulkButton::Archive, !offline),
    ] + (match junk {
        Some(in_junk) => seq![
            (
                if in_junk {
                    BulkButton::NotJunk
                } else {
                    BulkButton::Junk
                },
                !offline,
            ),
        ],
        None => Seq::empty(),
    }) + seq![(BulkButton::Snooze, !offline), (BulkButton::Delete, !offline), (BulkButton::Clear, true)]
}

fn collect_buttons(offline: bool, can_move: bool, junk: Option<bool>) -> (buttons: Vec<(BulkButton, bool)>)
    ensures
        buttons@ == bulk_buttons(offline, can_move, junk),
{
    let mut buttons: Vec<(BulkButton, bool)> = Vec::new();
    buttons.push((BulkButton::MarkRead, !offline));
    buttons.push((BulkButton::MarkUnread, !offline));
    buttons.push((BulkButton::Flag, !offline));
    buttons.push((BulkButton::Unflag, !offline));
    buttons.push((BulkButton::Move, !offline && can_move));
    buttons.push((BulkButton::Archive, !offline));
    if let Some(in_junk) = junk {
        let button = if in_junk {
            BulkButton::NotJunk
        } else {
            BulkButton::Junk
        };
        buttons.push((button, !offline));
    }
    buttons.push((BulkButton::Snooze, !offline));
    buttons.push((BulkButton::Delete, !offline));
    buttons.push((BulkButton::Clear, true));
    assert(buttons@ =~= bulk_buttons(offline, can_move, junk));
    buttons
}

/// What a button of the toolbar asks for, given the states of the messages it acts on.
pub open spec fn bulk_ask(button: BulkButton, states: Seq<(MessageRefView, bool, bool)>) -> Seq<EffectView> {
    match button {
        BulkButton::MarkRead => seq![EffectView::SetReadStates { marks: marks_of(states, false), read: true }],
        BulkButton::MarkUnread => seq![EffectView::SetReadStates { marks: marks_of(states, false), read: false }],
        BulkButton::Flag => seq![EffectView::SetFlags { marks: marks_of(states, true), flagged: true }],
        BulkButton::Unflag => seq![EffectView::SetFlags { marks: marks_of(states, true), flagged: false }],
        BulkButton::Archive => seq![EffectView::FileAll { references: refs_of(states), place: Filing::Archive }],
        BulkButton::Junk => seq![EffectView::FileAll { references: refs_of(states), place: Filing::Junk }],
        BulkButton::NotJunk => seq![EffectView::FileAll { references: refs_of(states), place: Filing::Inbox }],
        BulkButton::Delete => seq![EffectView::FileAll { references: refs_of(states), place: Filing::Bin }],
        BulkButton::Move | BulkButton::Snooze | BulkButton::Clear => Seq::empty(),
    }
}

/// Whether a tag is one of `ids`.
pub open spec fn tag_in(ids: Seq<Seq<char>>) -> spec_fn(TagView) -> bool {
    |tag: TagView| ids.contains(tag.id)
}

/// Whether an account has messages that are put off.
pub open spec fn puts_off() -> spec_fn((AccountId, AccountSettings)) -> bool {
    |entry: (AccountId, AccountSettings)| entry.1.snoozed_messages.len() > 0
}

/// What is said of an empty list.
pub open spec fn empty_key(tags: bool, flagged: bool, searching: bool) -> Seq<char> {
    if tags {
        "messages-empty-tags"@
    } else if flagged && searching {
        "messages-empty-flagged-results"@
    } else if flagged {
        "messages-empty-flagged"@
    } else if searching {
        "messages-empty-results"@
    } else {
        "messages-empty"@
    }
}

/// The tags of an account that the list is filtered by.
pub open spec fn filters_of(filters: AccountMap<Vec<String>>, account_id: Seq<char>) -> Seq<Seq<char>> {
    if filters@.contains_key(account_id) {
        filters@[account_id].deep_view()
    } else {
        Seq::empty()
    }
}

impl AviaryApp {
    /// Whether an account has a folder for junk.
    pub open spec fn has_junk(self, account_id: Seq<char>) -> bool {
        self.mailbox.folders_by_account@.contains_key(account_id)
            && self.mailbox.folders_by_account@[account_id].deep_view().any(is_junk())
    }

    /// Whether the folder on display is the one for junk of an account.
    pub open spec fn shows_junk(self, account_id: Seq<char>) -> bool {
        &&& self.has_junk(account_id)
        &&& self.mailbox.selected_folder_id.deep_view() == Some(
            first_where(self.mailbox.folders_by_account@[account_id].deep_view(), is_junk())->0.id,
        )
    }

    fn junk_folder(&self, account_id: &AccountId) -> (folder: Option<&MailFolder>)
        ensures
            folder is Some == self.has_junk(account_id.0@),
            folder is Some ==> folder.deep_view() == first_where(
                self.mailbox.folders_by_account@[account_id.0@].deep_view(),
                is_junk(),
            ),
    {
        match self.mailbox.folders_by_account.get(account_id) {
            Some(folders) => {
                let ghost all = folders.deep_view();
                proof {
                    lemma_first_index(all, is_junk());
                }
                let found = position_where(
                    folders,
                    |folder: &MailFolder| -> (junk: bool)
                        ensures
                            junk == is_junk()(folder.deep_view())
                        {
                        match well_known_folder(folder) {
                            Some(WellKnownFolder::JunkEmail) => true,
                            _ => false,
                        }
                    },
                    Ghost(is_junk()),
                );
                match found {
                    Some(i) => {
                        assert(all[i as int] == folders[i as int].deep_view());
                        assert(all.any(is_junk()));
                        Some(&folders[i])
                    },
                    None => {
                        assert(!all.any(is_junk()));
                        None
                    },
                }
            },
            None => None,
        }
    }

    /// Whether an account has a folder for junk.
    pub fn junk_folder_available(&self, account_id: &AccountId) -> (yes: bool)
        ensures
            yes == self.has_junk(account_id.0@),
    {
        self.junk_folder(account_id).is_some()
    }

    /// Whether the folder on display is the one for junk of an account.
    pub fn viewing_junk_folder(&self, account_id: &AccountId) -> (yes: bool)
        ensures
            yes == self.shows_junk(account_id.0@),
    {
        match self.junk_folder(account_id) {
            Some(folder) => crate::app::is_text(&self.mailbox.selected_folder_id, &folder.id),
            None => false,
        }
    }

    /// The states of the messages that are shown and selected.
    pub open spec fn chosen(self) -> Seq<(MessageRefView, bool, bool)> {
        self.filtered().filter(Self::one_of(self.mailbox.selection.messages.deep_view())).map_values(
            |header: MessageHeaderView| state_of_header(header),
        )
    }

    /// The toolbar of a selection.
    pub open spec fn toolbar(self) -> BulkToolbarView {
        let states = self.chosen();
        let references = refs_of(states);
        let account_id = single_account(references);
        let offline = references.any(in_accounts(self.offline_accounts.deep_view()));
        let can_move = account_id is Some && self.mailbox.folders_by_account@.contains_key(account_id->0)
            && self.mailbox.folders_by_account@[account_id->0].deep_view().any(
            not_selected(self.mailbox.selected_folder_id.deep_view()),
        );
        let has_junk = references.all(|reference: MessageRefView| self.has_junk(reference.account_id));
        let in_junk = references.any(|reference: MessageRefView| self.shows_junk(reference.account_id));
        BulkToolbarView {
            count: states.len() as usize,
            all_selected: states.len() > 0 && states.len() == self.filtered().len(),
            one_account: account_id is Some,
            buttons: bulk_buttons(
                offline,
                can_move,
                if has_junk {
                    Some(in_junk)
                } else {
                    None
                },
            ),
        }
    }

    /// The toolbar of a selection.
    pub fn bulk_message_toolbar(&self) -> (toolbar: BulkToolbar)
        ensures
            toolbar.deep_view() == self.toolbar(),
    {
        let states = self.selected_message_states();
        assert(states.deep_view() == self.chosen());
        assert(states.deep_view().len() == states.len());
        let references = collect_refs(&states);
        let count: usize = references.len();
        assert(references.deep_view().len() == count);
        let shown = self.filtered_message_headers();
        assert(shown.deep_view().len() == shown.len());
        let all_selected = count > 0 && count == shown.len();
        let account_id = account_of_all(&references);
        let offline = any_where(
            &references,
            |reference: &MessageRef| -> (yes: bool)
                ensures
                    yes == in_accounts(self.offline_accounts.deep_view())(reference.deep_view())
                { holds_account(&self.offline_accounts, &reference.account_id) },
            Ghost(in_accounts(self.offline_accounts.deep_view())),
        );
        let can_move = match &account_id {
            Some(account_id) => match self.mailbox.folders_by_account.get(account_id) {
                Some(folders) => has_move_folder_targets(folders, self.mailbox.selected_folder_id.as_ref()),
                None => false,
            },
            None => false,
        };
        let has_junk = all_where(
            &references,
            |reference: &MessageRef| -> (yes: bool)
                ensures
                    yes == self.has_junk(reference.deep_view().account_id)
                { self.junk_folder_available(&reference.account_id) },
            Ghost(|reference: MessageRefView| self.has_junk(reference.account_id)),
        );
        let in_junk = any_where(
            &references,
            |reference: &MessageRef| -> (yes: bool)
                ensures
                    yes == self.shows_junk(reference.deep_view().account_id)
                { self.viewing_junk_folder(&reference.account_id) },
            Ghost(|reference: MessageRefView| self.shows_junk(reference.account_id)),
        );
        let junk = if has_junk {
            Some(in_junk)
        } else {
            None
        };
        let toolbar = BulkToolbar {
            count,
            all_selected,
            one_account: account_id.is_some(),
            buttons: collect_buttons(offline, can_move, junk),
        };
        assert(toolbar.buttons.deep_view() =~= toolbar.buttons@);
        toolbar
    }

    /// Presses a button of the toolbar. Moving and putting off open menus of their own.
    pub fn press_bulk_button(&mut self, button: BulkButton)
        ensures
            final(self).asked(*old(self), bulk_ask(button, old(self).chosen())),
            final(self).selection_state() == (if button == BulkButton::Clear {
                (Seq::empty(), None)
            } else {
                old(self).selection_state()
            }),
            *final(self) == (AviaryApp {
                mailbox: MailboxState { selection: final(self).mailbox.selection, ..old(self).mailbox },
                effects: final(self).effects,
                ..*old(self)
            }),
    {
        assert(self.effects.deep_view() =~= old(self).effects.deep_view() + Seq::<EffectView>::empty());
        let states = self.selected_message_states();
        assert(states.deep_view() == self.chosen());
        match button {
            BulkButton::MarkRead => {
                self.send(Effect::SetReadStates { marks: collect_marks(&states, false), read: true });
            },
            BulkButton::MarkUnread => {
                self.send(Effect::SetReadStates { marks: collect_marks(&states, false), read: false });
            },
            BulkButton::Flag => {
                self.send(Effect::SetFlags { marks: collect_marks(&states, true), flagged: true });
            },
            BulkButton::Unflag => {
                self.send(Effect::SetFlags { marks: collect_marks(&states, true), flagged: false });
            },
            BulkButton::Archive => {
                self.send(Effect::FileAll { references: collect_refs(&states), place: Filing::Archive });
            },
            BulkButton::Junk => {
                self.send(Effect::FileAll { references: collect_refs(&states), place: Filing::Junk });
            },
            BulkButton::NotJunk => {
                self.send(Effect::FileAll { references: collect_refs(&states), place: Filing::Inbox });
            },
            BulkButton::Delete => {
                self.send(Effect::FileAll { references: collect_refs(&states), place: Filing::Bin });
            },
            BulkButton::Clear => {
                self.clear_message_selection();
            },
            BulkButton::Move | BulkButton::Snooze => {},
        }
    }

    /// The name that an account goes by: the one that was chosen for it, or its own.
    pub open spec fn title_of(self, account: AccountView) -> Seq<char> {
        let chosen = self.settings.account_view(account.id).display_name_override;
        if chosen.len() == 0 {
            account.display_name
        } else {
            chosen
        }
    }

    /// The name that an account goes by.
    pub fn account_label(&self, account: &Account) -> (label: String)
        ensures
            label@ == self.title_of(account.deep_view()),
    {
        match self.settings.accounts.get(&account.id) {
            Some(settings) => if settings.display_name_override.as_str().is_empty() {
                account.display_name.clone()
            } else {
                settings.display_name_override.clone()
            },
            None => account.display_name.clone(),
        }
    }

    /// The heading over the tags of an account.
    pub open spec fn tag_heading(self, account_id: Seq<char>) -> Seq<char> {
        match first_where(self.accounts.deep_view(), account_named(account_id)) {
            Some(account) => self.title_of(account),
            None => account_id,
        }
    }

    /// The lines of an account in the menu of tags.
    pub open spec fn tag_lines(self, account_id: Seq<char>) -> Seq<TagMenuLineView> {
        self.known_tags(account_id).map_values(
            |tag: TagView|
                TagMenuLineView::Entry {
                    account_id,
                    tag,
                    checked: filters_by(self.mailbox.filters.tag_filters, account_id, tag.id),
                },
        )
    }

    /// The tags of `accounts` in the menu. Where there are several accounts, a heading
    /// stands over the tags of each and a rule between them.
    pub open spec fn tag_menu(self, accounts: Seq<Seq<char>>, several: bool) -> Seq<TagMenuLineView>
        decreases accounts.len(),
    {
        if accounts.len() == 0 {
            Seq::empty()
        } else {
            let front = self.tag_menu(accounts.drop_last(), several);
            let lines = self.tag_lines(accounts.last());
            if lines.len() == 0 {
                front
            } else if several {
                front + (if front.len() > 0 {
                    seq![TagMenuLineView::Rule]
                } else {
                    Seq::empty()
                }) + seq![TagMenuLineView::Heading { label: self.tag_heading(accounts.last()) }] + lines
            } else {
                front + lines
            }
        }
    }

    /// The menu of tags that the list can be filtered by.
    pub open spec fn tag_filter_menu(self) -> Seq<TagMenuLineView> {
        let accounts = self.active_accounts();
        let lines = self.tag_menu(accounts, accounts.len() > 1);
        (if lines.len() == 0 {
            seq![TagMenuLineView::NoTags]
        } else {
            lines
        }) + (if filter_count(self.mailbox.filters.tag_filters.entries@) > 0 {
            seq![TagMenuLineView::Rule, TagMenuLineView::ClearFilters]
        } else {
            Seq::empty()
        })
    }

    fn push_tag_lines(&self, menu: &mut Vec<TagMenuLine>, account_id: &AccountId, tags: &Vec<Tag>)
        requires
            tags.deep_view() == self.known_tags(account_id.0@),
        ensures
            final(menu).deep_view() == old(menu).deep_view() + self.tag_lines(account_id.0@),
    {
        let ghost start = menu.deep_view();
        let ghost lines = self.tag_lines(account_id.0@);
        let mut i: usize = 0;
        assert(menu.deep_view() =~= start + lines.take(0));
        while i < tags.len()
            invariant
                i <= tags.len(),
                tags.deep_view() == self.known_tags(account_id.0@),
                lines == self.tag_lines(account_id.0@),
                lines.len() == tags.len(),
                menu.deep_view() == start + lines.take(i as int),
            decreases tags.len() - i,
        {
            let ghost before = menu.deep_view();
            assert(tags.deep_view()[i as int] == tags[i as int].deep_view());
            let checked = is_filter(&self.mailbox.filters.tag_filters, account_id, &tags[i].id);
            menu.push(TagMenuLine::Entry { account_id: account_id.clone(), tag: tags[i].clone(), checked });
            assert(menu.deep_view() =~= before.push(lines[i as int]));
            assert(lines.take(i + 1) =~= lines.take(i as int).push(lines[i as int]));
            assert(menu.deep_view() =~= start + lines.take(i + 1));
            i += 1;
        }
        assert(lines.take(lines.len() as int) =~= lines);
    }

    fn tag_filter_lines(&self) -> (menu: Vec<TagMenuLine>)
        ensures
            menu.deep_view() == self.tag_filter_menu(),
    {
        let accounts = self.active_account_ids();
        let ghost ids = accounts.deep_view();
        assert(ids.len() == accounts.len());
        let several = accounts.len() > 1;
        let mut menu: Vec<TagMenuLine> = Vec::new();
        let mut i: usize = 0;
        assert(menu.deep_view() =~= self.tag_menu(ids.take(0), several));
        while i < accounts.len()
            invariant
                i <= accounts.len(),
                ids == accounts.deep_view(),
                ids == self.active_accounts(),
                several == (ids.len() > 1),
                ids.len() == accounts.len(),
                menu.deep_view() == self.tag_menu(ids.take(i as int), several),
            decreases accounts.len() - i,
        {
            let ghost front = menu.deep_view();
            let account_id = &accounts[i];
            assert(ids[i as int] == account_id.0@);
            assert(ids.take(i + 1).drop_last() =~= ids.take(i as int));
            assert(front.len() == menu.len());
            if let Some(tags) = self.tags.by_account.get(account_id) {
                assert(tags.deep_view() == self.known_tags(account_id.0@));
                assert(tags.deep_view().len() == tags.len());
                if tags.len() > 0 {
                    if several {
                        if menu.len() > 0 {
                            menu.push(TagMenuLine::Rule);
                            assert(menu.deep_view() =~= front + seq![TagMenuLineView::Rule]);
                        }
                        let ghost ruled = menu.deep_view();
                        assert(ruled =~= front + (if front.len() > 0 {
                            seq![TagMenuLineView::Rule]
                        } else {
                            Seq::empty()
                        }));
                        let label = match self.account(account_id) {
                            Some(account) => self.account_label(account),
                            None => account_id.0.clone(),
                        };
                        menu.push(TagMenuLine::Heading { label });
                        assert(menu.deep_view() =~= ruled + seq![
                            TagMenuLineView::Heading { label: self.tag_heading(account_id.0@) },
                        ]);
                    }
                    self.push_tag_lines(&mut menu, account_id, tags);
                }
            }
            i += 1;
        }
        assert(ids.take(ids.len() as int) =~= ids);
        let ghost lines = menu.deep_view();
        assert(lines.len() == menu.len());
        if menu.len() == 0 {
            menu.push(TagMenuLine::NoTags);
            assert(menu.deep_view() =~= seq![TagMenuLineView::NoTags]);
        }
        let ghost first = menu.deep_view();
        if count_filters(&self.mailbox.filters.tag_filters) > 0 {
            menu.push(TagMenuLine::Rule);
            menu.push(TagMenuLine::ClearFilters);
            assert(menu.deep_view() =~= first + seq![TagMenuLineView::Rule, TagMenuLineView::ClearFilters]);
        } else {
            assert(menu.deep_view() =~= first + Seq::<TagMenuLineView>::empty());
        }
        menu
    }

    /// The first tag of an account that the list is filtered by.
    pub open spec fn marked_in(self, account_id: Seq<char>) -> Option<TagView> {
        if self.mailbox.filters.tag_filters@.contains_key(account_id) {
            first_where(
                self.known_tags(account_id),
                tag_in(self.mailbox.filters.tag_filters@[account_id].deep_view()),
            )
        } else {
            None
        }
    }

    /// The first tag of `accounts` that the list is filtered by.
    pub open spec fn marked_tag(self, accounts: Seq<Seq<char>>) -> Option<TagView>
        decreases accounts.len(),
    {
        if accounts.len() == 0 {
            None
        } else {
            match self.marked_tag(accounts.drop_last()) {
                Some(tag) => Some(tag),
                None => self.marked_in(accounts.last()),
            }
        }
    }

    fn first_marked_in(&self, account_id: &AccountId) -> (tag: Option<Tag>)
        ensures
            tag.deep_view() == self.marked_in(account_id.0@),
    {
        let ghost known = self.known_tags(account_id.0@);
        if let Some(ids) = self.mailbox.filters.tag_filters.get(account_id) {
            proof {
                lemma_first_index(known, tag_in(ids.deep_view()));
            }
            if let Some(tags) = self.tags.by_account.get(account_id) {
                let found = position_where(
                    tags,
                    |tag: &Tag| -> (yes: bool)
                        ensures
                            yes == ids.deep_view().contains(tag.deep_view().id)
                        { holds_text(ids, &tag.id) },
                    Ghost(tag_in(ids.deep_view())),
                );
                if let Some(i) = found {
                    assert(known[i as int] == tags[i as int].deep_view());
                    return Some(tags[i].clone());
                }
            }
        }
        None
    }

    fn first_marked(&self) -> (tag: Option<Tag>)
        ensures
            tag.deep_view() == self.marked_tag(self.active_accounts()),
    {
        let accounts = self.active_account_ids();
        let ghost ids = accounts.deep_view();
        let mut tag: Option<Tag> = None;
        let mut i: usize = 0;
        while i < accounts.len()
            invariant
                i <= accounts.len(),
                ids == accounts.deep_view(),
                tag.deep_view() == self.marked_tag(ids.take(i as int)),
            decreases accounts.len() - i,
        {
            assert(ids[i as int] == accounts[i as int].0@);
            assert(ids.take(i + 1).drop_last() =~= ids.take(i as int));
            if tag.is_none() {
                tag = self.first_marked_in(&accounts[i]);
            }
            i += 1;
        }
        assert(ids.take(ids.len() as int) =~= ids);
        tag
    }

    fn any_snoozed(&self) -> (yes: bool)
        ensures
            yes == self.settings.accounts.entries@.any(puts_off()),
    {
        let ghost entries = self.settings.accounts.entries@;
        let mut i: usize = 0;
        while i < self.settings.accounts.entries.len()
            invariant
                i <= self.settings.accounts.entries.len(),
                entries == self.settings.accounts.entries@,
                forall|j: int| 0 <= j < i ==> !puts_off()(#[trigger] entries[j]),
            decreases self.settings.accounts.entries.len() - i,
        {
            if self.settings.accounts.entries[i].1.snoozed_messages.len() > 0 {
                assert(puts_off()(entries[i as int]));
                return true;
            }
            i += 1;
        }
        false
    }

    /// The search field and the filters beside it.
    pub open spec fn filter_bar(self) -> FilterBarView {
        FilterBarView {
            offline: exists|i: int|
                0 <= i < self.active_accounts().len() && self.offline_accounts.deep_view().contains(
                    #[trigger] self.active_accounts()[i],
                ),
            filtering_tags: self.mailbox.filters.tag_filters.entries.len() > 0,
            tag_count: filter_count(self.mailbox.filters.tag_filters.entries@) as u128,
            marked_tag: self.marked_tag(self.active_accounts()),
            tag_menu: self.tag_filter_menu(),
            flagged_only: self.mailbox.filters.show_flagged_only,
            snoozed_offered: self.settings.accounts.entries@.any(puts_off()) || self.mailbox.filters.show_snoozed_only,
            snoozed_only: self.mailbox.filters.show_snoozed_only,
        }
    }

    fn any_active_offline(&self) -> (yes: bool)
        ensures
            yes == exists|i: int|
                0 <= i < self.active_accounts().len() && self.offline_accounts.deep_view().contains(
                    #[trigger] self.active_accounts()[i],
                ),
    {
        let accounts = self.active_account_ids();
        let ghost ids = self.active_accounts();
        assert(ids == accounts.deep_view());
        assert(ids.len() == accounts.len());
        let mut i: usize = 0;
        while i < accounts.len()
            invariant
                i <= accounts.len(),
                ids == accounts.deep_view(),
                ids == self.active_accounts(),
                ids.len() == accounts.len(),
                forall|j: int| 0 <= j < i ==> !self.offline_accounts.deep_view().contains(#[trigger] ids[j]),
            decreases accounts.len() - i,
        {
            assert(ids[i as int] == accounts[i as int].0@);
            if holds_account(&self.offline_accounts, &accounts[i]) {
                return true;
            }
            i += 1;
        }
        false
    }

    /// The search field and the filters beside it.
    pub fn message_filters(&self) -> (bar: FilterBar)
        ensures
            bar.deep_view() == self.filter_bar(),
    {
        let tag_count = count_filters(&self.mailbox.filters.tag_filters);
        FilterBar {
            offline: self.any_active_offline(),
            filtering_tags: self.mailbox.filters.tag_filters.entries.len() > 0,
            tag_count,
            marked_tag: self.first_marked(),
            tag_menu: self.tag_filter_lines(),
            flagged_only: self.mailbox.filters.show_flagged_only,
            snoozed_offered: self.any_snoozed() || self.mailbox.filters.show_snoozed_only,
            snoozed_only: self.mailbox.filters.show_snoozed_only,
        }
    }

    /// Nothing but the filters differs, and the list is laid out again.
    pub open spec fn refiltered(self, after: AviaryApp) -> bool {
        after == (AviaryApp {
            mailbox: MailboxState { filters: after.mailbox.filters, ..self.mailbox },
            message_list_revision: self.next_revision(),
            ..self
        })
    }

    /// Adds a tag to the filters, or takes it away; an account without tags to filter by
    /// is not kept.
    pub fn toggle_tag_filter(&mut self, account_id: AccountId, tag_id: String)
        ensures
            ({
                let ids = flipped(
                    filters_of(old(self).mailbox.filters.tag_filters, account_id.0@),
                    tag_id@,
                    other_text(tag_id@),
                );
                let before = old(self).mailbox.filters.tag_filters@;
                let after = final(self).mailbox.filters.tag_filters@;
                if ids.len() == 0 {
                    after == before.remove(account_id.0@)
                } else {
                    &&& after == before.insert(account_id.0@, after[account_id.0@])
                    &&& after[account_id.0@].deep_view() == ids
                }
            }),
            final(self).mailbox.filters == (FilterState {
                tag_filters: final(self).mailbox.filters.tag_filters,
                ..old(self).mailbox.filters
            }),
            old(self).refiltered(*final(self)),
    {
        let ghost id = account_id.0@;
        let ghost before = self.mailbox.filters.tag_filters@;
        let taken = self.mailbox.filters.tag_filters.remove(&account_id);
        let ghost found = filters_of(old(self).mailbox.filters.tag_filters, id);
        let mut ids: Vec<String> = match taken {
            Some(ids) => ids,
            None => Vec::new(),
        };
        assert(ids.deep_view() =~= found);
        if holds_text(&ids, &tag_id) {
            remove_text(&mut ids, &tag_id);
        } else {
            ids.push(tag_id);
            assert(ids.deep_view() =~= found.push(tag_id@));
        }
        assert(ids.deep_view().len() == ids.len());
        if ids.len() > 0 {
            let ghost kept = ids;
            self.mailbox.filters.tag_filters.insert(account_id, ids);
            assert(self.mailbox.filters.tag_filters@ =~= before.insert(id, kept));
        }
        self.invalidate_message_list();
    }

    /// Drops all filters by tag.
    pub fn clear_tag_filters(&mut self)
        ensures
            final(self).mailbox.filters.tag_filters@ == Map::<Seq<char>, Vec<String>>::empty(),
            final(self).mailbox.filters == (FilterState {
                tag_filters: final(self).mailbox.filters.tag_filters,
                ..old(self).mailbox.filters
            }),
            old(self).refiltered(*final(self)),
    {
        self.mailbox.filters.tag_filters = AccountMap::new();
        self.invalidate_message_list();
    }

    /// Shows flagged messages alone, or all.
    pub fn toggle_flagged_only(&mut self)
        ensures
            final(self).mailbox.filters == (FilterState {
                show_flagged_only: !old(self).mailbox.filters.show_flagged_only,
                ..old(self).mailbox.filters
            }),
            old(self).refiltered(*final(self)),
    {
        self.mailbox.filters.show_flagged_only = !self.mailbox.filters.show_flagged_only;
        self.invalidate_message_list();
    }

    /// Shows messages that are put off alone, or the others.
    pub fn toggle_snoozed_only(&mut self)
        ensures
            final(self).mailbox.filters == (FilterState {
                show_snoozed_only: !old(self).mailbox.filters.show_snoozed_only,
                ..old(self).mailbox.filters
            }),
            old(self).refiltered(*final(self)),
    {
        self.mailbox.filters.show_snoozed_only = !self.mailbox.filters.show_snoozed_only;
        self.invalidate_message_list();
    }

    /// What stands below the filters.
    pub open spec fn pane_body(self, empty: bool) -> PaneBodyView {
        let searching = self.mailbox.search.results is Some;
        if !empty {
            PaneBodyView::List
        } else if !searching && !self.mailbox.messages_loaded {
            PaneBodyView::Loading
        } else {
            PaneBodyView::Empty {
                key: empty_key(
                    self.mailbox.filters.tag_filters.entries.len() > 0,
                    self.mailbox.filters.show_flagged_only,
                    searching,
                ),
            }
        }
    }

    fn message_pane_body(&self, empty: bool) -> (body: PaneBody)
        ensures
            body.deep_view() == self.pane_body(empty),
    {
        let searching = self.mailbox.search.results.is_some();
        if !empty {
            return PaneBody::List;
        }
        if !searching && !self.mailbox.messages_loaded {
            return PaneBody::Loading;
        }
        let key: &'static str = if self.mailbox.filters.tag_filters.entries.len() > 0 {
            "messages-empty-tags"
        } else if self.mailbox.filters.show_flagged_only && searching {
            "messages-empty-flagged-results"
        } else if self.mailbox.filters.show_flagged_only {
            "messages-empty-flagged"
        } else if searching {
            "messages-empty-results"
        } else {
            "messages-empty"
        };
        PaneBody::Empty { key }
    }

    /// The message pane over the given entries. What is selected and no longer shown is
    /// dropped from the selection first.
    pub fn messages_pane(&mut self, entries: &Vec<MsgEntry>) -> (pane: MessagesPane)
        ensures
            final(self).selection_state() == (
                old(self).selection_state().0.filter(
                    |reference: MessageRefView| old(self).visible_refs().contains(reference),
                ),
                old(self).selection_state().1,
            ),
            final(self).same_but_selection(*old(self)),
            pane.deep_view() == (MessagesPaneView {
                selecting: final(self).selection_state().0.len() > 0,
                query: if old(self).mailbox.search.results is Some {
                    Some(old(self).mailbox.search.query@)
                } else {
                    None
                },
                body: old(self).pane_body(entries.len() == 0),
                loading_more: old(self).mailbox.search.results is None && old(self).mailbox.pagination.loading_more,
            }),
    {
        self.prune_selection();
        let searching = self.mailbox.search.results.is_some();
        let query = if searching {
            Some(self.mailbox.search.query.clone())
        } else {
            None
        };
        assert(self.mailbox.selection.messages.deep_view().len() == self.mailbox.selection.messages.len());
        MessagesPane {
            selecting: self.mailbox.selection.messages.len() > 0,
            query,
            body: self.message_pane_body(entries.len() == 0),
            loading_more: !searching && self.mailbox.pagination.loading_more,
        }
    }

    /// The line of an entry: nothing where its message is gone.
    pub open spec fn line(self, entry: MsgEntryView, show_account: bool) -> ListLineView {
        match entry {
            MsgEntryView::Header { key, label, count, pinned, collapsed } => ListLineView::Section {
                key,
                label,
                count,
                pinned,
                collapsed,
            },
            MsgEntryView::Row { reference, time_only, pinned, section_end, in_group } => match self.lookup(reference) {
                Some(header) => ListLineView::Row {
                    row: self.row(header, show_account, time_only, true, None),
                    pinned,
                    section_end,
                    in_group,
                },
                None => ListLineView::Nothing,
            },
            MsgEntryView::Group { reference, group, time_only, pinned, section_end } => match self.lookup(reference) {
                Some(header) => ListLineView::Row {
                    row: self.row(header, show_account, time_only, true, Some(group)),
                    pinned,
                    section_end,
                    in_group: false,
                },
                None => ListLineView::Nothing,
            },
        }
    }

    /// The line of an entry.
    pub fn message_list_item(&self, entry: &MsgEntry, show_account: bool) -> (line: ListLine)
        ensures
            line.deep_view() == self.line(entry.deep_view(), show_account),
    {
        match entry {
            MsgEntry::Header { key, label, count, pinned, collapsed } => ListLine::Section {
                key: key.clone(),
                label: *label,
                count: *count,
                pinned: *pinned,
                collapsed: *collapsed,
            },
            MsgEntry::Row { reference, time_only, pinned, section_end, in_group } => match self.message_header_for_reference(
                reference,
            ) {
                Some(header) => ListLine::Row {
                    row: self.message_row_inner(header, show_account, *time_only, true, None),
                    pinned: *pinned,
                    section_end: *section_end,
                    in_group: *in_group,
                },
                None => ListLine::Nothing,
            },
            MsgEntry::Group { reference, group, time_only, pinned, section_end } => match self.message_header_for_reference(
                reference,
            ) {
                Some(header) => ListLine::Row {
                    row: self.message_row_inner(header, show_account, *time_only, true, Some(group)),
                    pinned: *pinned,
                    section_end: *section_end,
                    in_group: false,
                },
                None => ListLine::Nothing,
            },
        }
    }
}

/// A tag that is toggled twice filters as before.
pub proof fn law_tag_filters_are_undone(ids: Seq<Seq<char>>, tag_id: Seq<char>, other: Seq<char>)
    ensures
        flipped(ids, tag_id, other_text(tag_id)).contains(tag_id) == !ids.contains(tag_id),
        flipped(flipped(ids, tag_id, other_text(tag_id)), tag_id, other_text(tag_id)).contains(other) == ids.contains(
            other,
        ),
{
    crate::navigation::lemma_flipped(ids, tag_id, tag_id);
    crate::navigation::lemma_flipped(ids, tag_id, other);
    let once = flipped(ids, tag_id, other_text(tag_id));
    crate::navigation::lemma_flipped(once, tag_id, tag_id);
    crate::navigation::lemma_flipped(once, tag_id, other);
}

/// Whatever is selected, the toolbar has at most one junk button, and its last button,
/// which drops the selection, can always be pressed.
pub proof fn law_toolbar(offline: bool, can_move: bool, junk: Option<bool>)
    ensures
        bulk_buttons(offline, can_move, junk).last() == (BulkButton::Clear, true),
        bulk_buttons(offline, can_move, junk).len() == (if junk is Some {
            10int
        } else {
            9int
        }),
        offline ==> forall|i: int|
            0 <= i < bulk_buttons(offline, can_move, junk).len() - 1 ==> !(
            #[trigger] bulk_buttons(offline, can_move, junk)[i]).1,
{
}

} // verus!
