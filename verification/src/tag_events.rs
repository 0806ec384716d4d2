//! Events of tags.
use crate::account_map::AccountMap;
use crate::app::{drop_account, other_account, storage_key, tag_storage_key, told};
use crate::folder_events::{account_set, swap_text, swapped};
use crate::kanban::{
    board_of_columns, bumped, lemma_outdated, renamed_column, tag_has_id, tag_position, AccountBoardStateView, BoardState, COLUMN_LIMIT,
};
use crate::list_entries::holds_text;
use crate::lists::{lemma_filter_all, first_index, first_where, map_each, retain_where, take_list};
use crate::mailbox_events::in_results;
use crate::model::{clone_list, AccountId, MessageHeader, MessageHeaderView, Tag, TagView};
use crate::reading::{in_selected, map_selected};
use crate::settings::{other_text, remove_text, AccountSettingsView, QuickAction, QuickActionView};
use crate::state::{
    AviaryApp, Effect, EffectView, FilterState, MailboxState, Message, MessageView, SearchState, TagsState, ToastKind,
    ViewerState,
};
use crate::navigation::lemma_filter_keeps;
use crate::navigation::lemma_other_texts;
use vstd::prelude::*;

verus! {

/// The tags of an account.
pub open spec fn tags_of(tags: AccountMap<Vec<Tag>>, id: Seq<char>) -> Seq<TagView> {
    if tags@.contains_key(id) {
        tags@[id].deep_view()
    } else {
        Seq::empty()
    }
}

/// Whether a tag has another id.
pub open spec fn tag_other(id: Seq<char>) -> spec_fn(TagView) -> bool {
    |tag: TagView| tag.id != id
}

/// The tags after the first one with id `id` became `f` of it.
pub open spec fn tag_changed(tags: Seq<TagView>, id: Seq<char>, f: spec_fn(TagView) -> TagView) -> Seq<TagView> {
    match first_index(tags, tag_has_id(id)) {
        Some(i) => tags.update(i, f(tags[i])),
        None => tags,
    }
}

/// A tag with another id and name.
pub open spec fn tag_named(id: Seq<char>, name: Seq<char>) -> spec_fn(TagView) -> TagView {
    |tag: TagView| TagView { id, display_name: name, ..tag }
}

/// A tag with another color.
pub open spec fn tag_colored(color: u32) -> spec_fn(TagView) -> TagView {
    |tag: TagView| TagView { color: Some(color), ..tag }
}

/// The part of the board that an account has or is given.
pub open spec fn board_or_new(board: Option<AccountBoardStateView>, columns: Seq<Seq<char>>) -> AccountBoardStateView {
    match board {
        Some(board) => board,
        None => board_of_columns(columns),
    }
}

/// An account's part of the board became `part`; the rest of the board stays. The shared
/// columns were outdated so many times.
pub open spec fn board_set(
    before: BoardState,
    after: BoardState,
    account_id: Seq<char>,
    part: AccountBoardStateView,
    times: nat,
) -> bool {
    &&& after.board(account_id) == Some(part)
    &&& after.outdated(before, times)
    &&& after.same_elsewhere(before, account_id)
    &&& after.preview == before.preview
    &&& after.hovered_cards == before.hovered_cards
    &&& after.column_scrolls == before.column_scrolls
}

/// An account's part of the board, if it has one, became `part`; the rest of the board
/// stays. The shared columns were outdated so many times.
pub open spec fn part_set(
    before: BoardState,
    after: BoardState,
    account_id: Seq<char>,
    part: AccountBoardStateView,
    times: nat,
) -> bool {
    if before.board(account_id) is Some {
        board_set(before, after, account_id, part, times)
    } else {
        &&& after.accounts == before.accounts
        &&& after.outdated(before, times)
        &&& after.preview == before.preview
        &&& after.hovered_cards == before.hovered_cards
        &&& after.column_scrolls == before.column_scrolls
    }
}

/// How often the shared columns are outdated when an account gets its tags: once, if they
/// differ from those it had.
pub open spec fn tag_changes(board: Option<AccountBoardStateView>, tags: Seq<TagView>) -> nat {
    if board is Some && board->0.tags != tags {
        1
    } else {
        0
    }
}

/// The filter after a tag got another id.
pub open spec fn filter_renamed(filter: Seq<Seq<char>>, from: Seq<char>, to: Seq<char>) -> Seq<Seq<char>> {
    if filter.contains(from) {
        let rest = filter.filter(other_text(from));
        if rest.contains(to) {
            rest
        } else {
            rest.push(to)
        }
    } else {
        filter
    }
}

/// A quick action whose tag has another id now.
pub open spec fn retargeted(from: Seq<char>, to: Seq<char>) -> spec_fn(QuickActionView) -> QuickActionView {
    |action: QuickActionView|
        QuickActionView {
            add_tags: action.add_tags.map_values(swapped(from, to)),
            remove_tags: action.remove_tags.map_values(swapped(from, to)),
            ..action
        }
}

/// The tags of a message once a tag was put on it or taken off.
pub open spec fn toggled_tag(tags: Seq<Seq<char>>, key: Seq<char>, added: bool) -> Seq<Seq<char>> {
    let rest = tags.filter(other_text(key));
    if added {
        rest.push(key)
    } else {
        rest
    }
}

/// A header of message `id` once a tag was put on it or taken off.
pub open spec fn header_toggled(id: Seq<char>, key: Seq<char>, added: bool) -> spec_fn(MessageHeaderView) -> MessageHeaderView {
    |header: MessageHeaderView|
        if header.id == id {
            MessageHeaderView { tags: toggled_tag(header.tags, key, added), ..header }
        } else {
            header
        }
}

/// Message `id` once a tag was put on it or taken off.
pub open spec fn message_toggled(id: Seq<char>, key: Seq<char>, added: bool) -> spec_fn(MessageView) -> MessageView {
    |message: MessageView|
        if message.header.id == id {
            MessageView { tags: toggled_tag(message.tags, key, added), ..message }
        } else {
            message
        }
}

/// An account's part of the board once the columns of `ids` wait for their messages.
pub open spec fn all_loading(board: AccountBoardStateView, ids: Seq<Seq<char>>) -> AccountBoardStateView
    decreases ids.len(),
{
    if ids.len() == 0 {
        board
    } else {
        all_loading(board, ids.drop_last()).with_loading(ids.last())
    }
}

/// Requests for the messages of the tags `ids`.
pub open spec fn listing_asks(account_id: Seq<char>, ids: Seq<Seq<char>>) -> Seq<EffectView> {
    ids.map_values(|tag_id: Seq<char>| EffectView::LoadTagListing { account_id, tag_id, limit: COLUMN_LIMIT })
}

/// Puts a tag on a message's list of tags or takes it off.
pub(crate) fn toggle_tag(tags: &mut Vec<String>, key: &String, added: bool)
    ensures
        final(tags).deep_view() == toggled_tag(old(tags).deep_view(), key@, added),
{
    remove_text(tags, key);
    if added {
        let ghost rest = tags.deep_view();
        tags.push(key.clone());
        assert(tags.deep_view() =~= rest.push(key@));
    }
}

/// Gives a tag another id and name.
fn rename_tag(tags: &mut Vec<Tag>, id: &String, new_id: &String, name: &String)
    ensures
        final(tags).deep_view() == tag_changed(old(tags).deep_view(), id@, tag_named(new_id@, name@)),
{
    let ghost before = tags.deep_view();
    if let Some(i) = tag_position(tags, id.as_str()) {
        assert(before[i as int] == tags[i as int].deep_view());
        let mut tag = tags[i].clone();
        tag.id = new_id.clone();
        tag.display_name = name.clone();
        let ghost shown = tag.deep_view();
        tags.set(i, tag);
        assert(tags.deep_view() =~= before.update(i as int, shown));
    }
}

/// Gives a tag another color.
fn color_tag(tags: &mut Vec<Tag>, id: &String, color: u32)
    ensures
        final(tags).deep_view() == tag_changed(old(tags).deep_view(), id@, tag_colored(color)),
{
    let ghost before = tags.deep_view();
    if let Some(i) = tag_position(tags, id.as_str()) {
        assert(before[i as int] == tags[i as int].deep_view());
        let mut tag = tags[i].clone();
        tag.color = Some(color);
        let ghost shown = tag.deep_view();
        tags.set(i, tag);
        assert(tags.deep_view() =~= before.update(i as int, shown));
    }
}

impl AviaryApp {
    /// Key under which messages of an account carry the tag with the given id.
    pub open spec fn message_key(self, account_id: Seq<char>, tag_id: Seq<char>) -> Seq<char> {
        match first_where(tags_of(self.tags.by_account, account_id), tag_has_id(tag_id)) {
            Some(tag) => storage_key(self.provider_of(account_id), tag),
            None => tag_id,
        }
    }

    /// Key under which messages of an account carry the tag with the given id.
    pub fn tag_key(&self, account_id: &AccountId, tag_id: &String) -> (key: String)
        ensures
            key@ == self.message_key(account_id.0@, tag_id@),
    {
        match self.tags.by_account.get(account_id) {
            Some(tags) => match tag_position(tags, tag_id.as_str()) {
                Some(i) => {
                    assert(tags.deep_view()[i as int] == tags[i as int].deep_view());
                    tag_storage_key(self.provider(account_id), &tags[i])
                },
                None => tag_id.clone(),
            },
            None => tag_id.clone(),
        }
    }

    /// The columns that the settings give an account.
    pub open spec fn configured_columns(self, account_id: Seq<char>) -> Seq<Seq<char>> {
        self.settings.account_view(account_id).kanban_tag_columns
    }

    /// How often the shared columns are outdated when an account gets its tags, and a part
    /// of the board if it has none.
    pub open spec fn showing_changes(self, account_id: Seq<char>, tags: Seq<TagView>) -> nat {
        let board = self.kanban.board(account_id);
        (if board is None {
            1nat
        } else {
            0nat
        }) + tag_changes(Some(board_or_new(board, self.configured_columns(account_id))), tags)
    }

    /// Gives the board the tags of an account.
    fn show_tags(&mut self, account_id: &AccountId, tags: Vec<Tag>)
        ensures
            board_set(
                old(self).kanban,
                final(self).kanban,
                account_id.0@,
                AccountBoardStateView {
                    tags: tags.deep_view(),
                    ..board_or_new(
                        old(self).kanban.board(account_id.0@),
                        old(self).configured_columns(account_id.0@),
                    )
                },
                old(self).showing_changes(account_id.0@, tags.deep_view()),
            ),
            *final(self) == (AviaryApp { kanban: final(self).kanban, ..*old(self) }),
    {
        reveal_with_fuel(bumped, 3);
        let columns = self.settings.account_or_default(Some(account_id)).kanban_tag_columns;
        self.kanban.ensure_account(account_id, &columns);
        self.kanban.set_tags(account_id, tags);
    }

    /// What `on_tags` does.
    pub open spec fn tags_handled(self, after: AviaryApp, account_id: AccountId, tags: Vec<Tag>) -> bool {
        &&& after.tags.by_account@ == self.tags.by_account@.insert(account_id.0@, tags)
        &&& after.tags.loading.deep_view() == self.tags.loading.deep_view().filter(
            other_account(account_id.0@),
        )
        &&& board_set(
            self.kanban,
            after.kanban,
            account_id.0@,
            AccountBoardStateView {
                tags: tags.deep_view(),
                ..board_or_new(
                    self.kanban.board(account_id.0@),
                    self.configured_columns(account_id.0@),
                )
            },
            self.showing_changes(account_id.0@, tags.deep_view()),
        )
        &&& after == (AviaryApp { tags: after.tags, kanban: after.kanban, ..self })
    }

    /// The tags of an account came.
    pub fn on_tags(&mut self, account_id: AccountId, tags: Vec<Tag>)
        ensures
            old(self).tags_handled(*final(self), account_id, tags),
    {
        drop_account(&mut self.tags.loading, &account_id);
        self.show_tags(&account_id, clone_list(&tags));
        self.tags.by_account.insert(account_id, tags);
    }

    /// Gives an account's columns to its settings.
    pub(crate) fn keep_columns(&mut self, account_id: &AccountId)
        ensures
            account_set(
                old(self).settings,
                final(self).settings,
                account_id.0@,
                AccountSettingsView {
                    kanban_tag_columns: match old(self).kanban.board(account_id.0@) {
                        Some(board) => board.column_ids(),
                        None => Seq::empty(),
                    },
                    ..old(self).settings.account_view(account_id.0@)
                },
            ),
            *final(self) == (AviaryApp { settings: final(self).settings, ..*old(self) }),
    {
        let columns = self.kanban.column_ids(account_id);
        self.settings.account_mut(account_id).kanban_tag_columns = columns;
    }

    /// An account's part of the board once a tag was created.
    pub open spec fn board_with_tag(self, account_id: Seq<char>, tag: TagView) -> AccountBoardStateView {
        (AccountBoardStateView {
            tags: tags_of(self.tags.by_account, account_id).push(tag),
            ..board_or_new(self.kanban.board(account_id), self.configured_columns(account_id))
        }).with_column(tag.id).with_loading(tag.id)
    }

    /// What `on_tag_created` does.
    pub open spec fn tag_created_handled(self, after: AviaryApp, account_id: AccountId, tag: Tag) -> bool {
        let part = self.board_with_tag(account_id.0@, tag.deep_view());
        &&& after.tags.by_account@ == self.tags.by_account@.insert(
            account_id.0@,
            after.tags.by_account@[account_id.0@],
        )
        &&& after.tags.by_account@[account_id.0@].deep_view() == part.tags
        &&& board_set(
            self.kanban,
            after.kanban,
            account_id.0@,
            part,
            self.showing_changes(account_id.0@, part.tags) + 2,
        )
        &&& account_set(
            self.settings,
            after.settings,
            account_id.0@,
            AccountSettingsView {
                kanban_tag_columns: part.column_ids(),
                ..self.settings.account_view(account_id.0@)
            },
        )
        &&& after.asked(
            self,
            seq![
                EffectView::SaveSettings,
                EffectView::LoadTagListing { account_id: account_id.0@, tag_id: tag.id@, limit: COLUMN_LIMIT },
                told(ToastKind::Success, "toast-tag-created"@),
            ],
        )
        &&& after == (AviaryApp {
            settings: after.settings,
            tags: TagsState { by_account: after.tags.by_account, ..self.tags },
            kanban: after.kanban,
            effects: after.effects,
            ..self
        })
    }

    /// A tag was created: it gets a column on the board.
    pub fn on_tag_created(&mut self, account_id: AccountId, tag: Tag)
        ensures
            old(self).tag_created_handled(*final(self), account_id, tag),
    {
        let ghost start = *self;
        let ghost shown = tag.deep_view();
        let mut tags: Vec<Tag> = match self.tags.by_account.remove(&account_id) {
            Some(tags) => tags,
            None => Vec::new(),
        };
        let ghost before = tags.deep_view();
        assert(before =~= tags_of(start.tags.by_account, account_id.0@));
        tags.push(tag.clone());
        assert(tags.deep_view() =~= before.push(shown));
        self.show_tags(&account_id, clone_list(&tags));
        self.tags.by_account.insert(account_id.clone(), tags);
        assert(self.tags.by_account@ =~= start.tags.by_account@.insert(
            account_id.0@,
            self.tags.by_account@[account_id.0@],
        ));
        let ghost shown_board = self.kanban;
        self.kanban.add_column(&account_id, tag.id.as_str());
        self.kanban.mark_column_loading(&account_id, tag.id.as_str());
        proof {
            reveal_with_fuel(bumped, 3);
            assert(self.kanban.outdated(shown_board, 2));
            lemma_outdated(
                start.kanban,
                shown_board,
                self.kanban,
                start.showing_changes(account_id.0@, before.push(shown)),
                2,
            );
        }
        self.keep_columns(&account_id);
        self.send(Effect::SaveSettings);
        self.send(Effect::LoadTagListing { account_id, tag_id: tag.id, limit: COLUMN_LIMIT });
        self.tell(ToastKind::Success, "toast-tag-created");
        assert(self.effects.deep_view() =~= start.effects.deep_view() + seq![
            EffectView::SaveSettings,
            EffectView::LoadTagListing { account_id: account_id.0@, tag_id: tag.id@, limit: COLUMN_LIMIT },
            told(ToastKind::Success, "toast-tag-created"@),
        ]);
    }

    /// Gives the board the tags that an account has, if they are known.
    fn show_known_tags(&mut self, account_id: &AccountId)
        ensures
            if old(self).tags.by_account@.contains_key(account_id.0@) {
                part_set(
                    old(self).kanban,
                    final(self).kanban,
                    account_id.0@,
                    AccountBoardStateView {
                        tags: tags_of(old(self).tags.by_account, account_id.0@),
                        ..old(self).kanban.board(account_id.0@)->0
                    },
                    tag_changes(
                        old(self).kanban.board(account_id.0@),
                        tags_of(old(self).tags.by_account, account_id.0@),
                    ),
                )
            } else {
                final(self).kanban == old(self).kanban
            },
            *final(self) == (AviaryApp { kanban: final(self).kanban, ..*old(self) }),
    {
        reveal_with_fuel(bumped, 2);
        if let Some(tags) = self.tags.by_account.get(account_id) {
            let tags = clone_list(tags);
            self.kanban.set_tags(account_id, tags);
        }
    }

    /// What `on_tag_color_set` does.
    pub open spec fn tag_color_set_handled(self, after: AviaryApp, account_id: AccountId, id: String, color: u32) -> bool {
        &&& ({
            let new = tag_changed(tags_of(self.tags.by_account, account_id.0@), id@, tag_colored(color));
            if self.tags.by_account@.contains_key(account_id.0@) {
                &&& after.tags.by_account@ == self.tags.by_account@.insert(
                    account_id.0@,
                    after.tags.by_account@[account_id.0@],
                )
                &&& after.tags.by_account@[account_id.0@].deep_view() == new
                &&& part_set(
                    self.kanban,
                    after.kanban,
                    account_id.0@,
                    AccountBoardStateView { tags: new, ..self.kanban.board(account_id.0@)->0 },
                    tag_changes(self.kanban.board(account_id.0@), new),
                )
            } else {
                after.tags.by_account == self.tags.by_account && after.kanban == self.kanban
            }
        })
        &&& after == (AviaryApp {
            tags: TagsState { by_account: after.tags.by_account, ..self.tags },
            kanban: after.kanban,
            ..self
        })
    }

    /// A tag got another color.
    pub fn on_tag_color_set(&mut self, account_id: AccountId, id: String, color: u32)
        ensures
            old(self).tag_color_set_handled(*final(self), account_id, id, color),
    {
        if let Some(tags) = self.tags.by_account.get_mut(&account_id) {
            color_tag(tags, &id, color);
        }
        self.show_known_tags(&account_id);
    }

    /// The filter of an account follows a tag to its new id.
    fn rename_in_filter(&mut self, account_id: &AccountId, id: &String, new_id: &String)
        ensures
            if old(self).mailbox.filters.tag_filters@.contains_key(account_id.0@) {
                &&& final(self).mailbox.filters.tag_filters@ == old(self).mailbox.filters.tag_filters@.insert(
                    account_id.0@,
                    final(self).mailbox.filters.tag_filters@[account_id.0@],
                )
                &&& final(self).mailbox.filters.tag_filters@[account_id.0@].deep_view() == filter_renamed(
                    old(self).mailbox.filters.tag_filters@[account_id.0@].deep_view(),
                    id@,
                    new_id@,
                )
            } else {
                final(self).mailbox.filters.tag_filters == old(self).mailbox.filters.tag_filters
            },
            *final(self) == (AviaryApp {
                mailbox: MailboxState {
                    filters: FilterState {
                        tag_filters: final(self).mailbox.filters.tag_filters,
                        ..old(self).mailbox.filters
                    },
                    ..old(self).mailbox
                },
                ..*old(self)
            }),
    {
        if let Some(filter) = self.mailbox.filters.tag_filters.get_mut(account_id) {
            if holds_text(filter, id) {
                remove_text(filter, id);
                if !holds_text(filter, new_id) {
                    let ghost rest = filter.deep_view();
                    filter.push(new_id.clone());
                    assert(filter.deep_view() =~= rest.push(new_id@));
                }
            }
        }
    }

    /// The settings of an account follow a tag to its new id.
    fn retarget_settings(&mut self, account_id: &AccountId, id: &String, new_id: &String)
        ensures
            account_set(
                old(self).settings,
                final(self).settings,
                account_id.0@,
                AccountSettingsView {
                    kanban_tag_columns: match old(self).kanban.board(account_id.0@) {
                        Some(board) => board.column_ids(),
                        None => Seq::empty(),
                    },
                    quick_actions: old(self).settings.account_view(account_id.0@).quick_actions.map_values(
                        retargeted(id@, new_id@),
                    ),
                    ..old(self).settings.account_view(account_id.0@)
                },
            ),
            *final(self) == (AviaryApp { settings: final(self).settings, ..*old(self) }),
    {
        let ghost start = *self;
        self.keep_columns(account_id);
        let account = self.settings.account_mut(account_id);
        let ghost before = account.deep_view();
        let taken = take_list(&mut account.quick_actions);
        account.quick_actions = map_each(
            taken,
            |action: QuickAction| -> (mapped: QuickAction)
                ensures
                    mapped.deep_view() == retargeted(id@, new_id@)(action.deep_view())
                {
                let mut action = action;
                swap_text(&mut action.add_tags, id, new_id);
                swap_text(&mut action.remove_tags, id, new_id);
                action
            },
            Ghost(retargeted(id@, new_id@)),
        );
        assert(account.deep_view() == (AccountSettingsView {
            quick_actions: before.quick_actions.map_values(retargeted(id@, new_id@)),
            ..before
        }));
        assert(self.settings.accounts@ =~= start.settings.accounts@.insert(
            account_id.0@,
            self.settings.accounts@[account_id.0@],
        ));
    }

    /// An account's part of the board after a tag got another id and name.
    pub open spec fn board_renamed(self, account_id: Seq<char>, id: Seq<char>, to: Seq<char>, name: Seq<char>) -> AccountBoardStateView {
        let board = self.kanban.board(account_id)->0;
        AccountBoardStateView {
            tags: if self.tags.by_account@.contains_key(account_id) {
                tag_changed(tags_of(self.tags.by_account, account_id), id, tag_named(to, name))
            } else {
                board.tags
            },
            columns: board.columns.map_values(renamed_column(id, to)),
        }
    }

    /// How often the shared columns are outdated when a tag gets another id and name. The
    /// columns follow it to the id twice, where its account's tags are known.
    pub open spec fn renaming_changes(self, account_id: Seq<char>, id: Seq<char>, to: Seq<char>, name: Seq<char>) -> nat {
        let known = self.tags.by_account@.contains_key(account_id);
        (if known {
            tag_changes(
                self.kanban.board(account_id),
                tag_changed(tags_of(self.tags.by_account, account_id), id, tag_named(to, name)),
            )
        } else {
            0nat
        }) + (if id == to {
            0nat
        } else if known {
            2nat
        } else {
            1nat
        })
    }

    /// Everything but the messages follows a tag to its new id and name.
    pub open spec fn tag_moved(self, after: AviaryApp, account_id: Seq<char>, id: Seq<char>, to: Seq<char>, name: Seq<char>) -> bool {
        let filters = self.mailbox.filters.tag_filters;
        let new_filters = after.mailbox.filters.tag_filters;
        &&& if self.tags.by_account@.contains_key(account_id) {
            &&& after.tags.by_account@ == self.tags.by_account@.insert(account_id, after.tags.by_account@[account_id])
            &&& after.tags.by_account@[account_id].deep_view() == tag_changed(
                tags_of(self.tags.by_account, account_id),
                id,
                tag_named(to, name),
            )
        } else {
            after.tags.by_account == self.tags.by_account
        }
        &&& part_set(
            self.kanban,
            after.kanban,
            account_id,
            self.board_renamed(account_id, id, to, name),
            self.renaming_changes(account_id, id, to, name),
        )
        &&& if to != id && filters@.contains_key(account_id) {
            &&& new_filters@ == filters@.insert(account_id, new_filters@[account_id])
            &&& new_filters@[account_id].deep_view() == filter_renamed(filters@[account_id].deep_view(), id, to)
        } else {
            new_filters == filters
        }
        &&& if to != id {
            &&& account_set(
                self.settings,
                after.settings,
                account_id,
                AccountSettingsView {
                    kanban_tag_columns: match self.kanban.board(account_id) {
                        Some(_) => self.board_renamed(account_id, id, to, name).column_ids(),
                        None => Seq::empty(),
                    },
                    quick_actions: self.settings.account_view(account_id).quick_actions.map_values(
                        retargeted(id, to),
                    ),
                    ..self.settings.account_view(account_id)
                },
            )
            &&& after.asked(self, seq![EffectView::SaveSettings])
        } else {
            after.settings == self.settings && after.effects == self.effects
        }
        &&& after == (AviaryApp {
            settings: after.settings,
            tags: TagsState { by_account: after.tags.by_account, ..self.tags },
            kanban: after.kanban,
            mailbox: MailboxState {
                filters: FilterState { tag_filters: new_filters, ..self.mailbox.filters },
                ..self.mailbox
            },
            effects: after.effects,
            ..self
        })
    }

    /// Lets everything but the messages follow a tag to its new id and name.
    fn move_tag(&mut self, account_id: &AccountId, id: &String, effective: &String, new_name: &String)
        ensures
            old(self).tag_moved(*final(self), account_id.0@, id@, effective@, new_name@),
    {
        let ghost start = *self;
        reveal_with_fuel(bumped, 4);
        if let Some(tags) = self.tags.by_account.get_mut(account_id) {
            rename_tag(tags, id, effective, new_name);
        }
        if self.tags.by_account.contains_key(account_id) {
            self.kanban.replace_tag_id(account_id, id.as_str(), effective.as_str());
        }
        self.show_known_tags(account_id);
        proof {
            if let Some(board) = start.kanban.board(account_id.0@) {
                let f = renamed_column(id@, effective@);
                let once = board.columns.map_values(f);
                assert(once.map_values(f) =~= once);
                if id@ == effective@ {
                    assert(once =~= board.columns);
                }
            }
        }
        if *effective != *id {
            self.rename_in_filter(account_id, id, effective);
            self.kanban.replace_tag_id(account_id, id.as_str(), effective.as_str());
            self.retarget_settings(account_id, id, effective);
            self.send(Effect::SaveSettings);
        }
    }

    /// What `on_tag_renamed` does.
    pub open spec fn tag_renamed_handled(self, after: AviaryApp, account_id: AccountId, id: String, new_id: Option<String>, old_message_tag: Option<String>, new_name: String) -> bool {
        let to = match new_id {
            Some(new_id) => new_id@,
            None => id@,
        };
        match old_message_tag {
            None => self.tag_moved(after, account_id.0@, id@, to, new_name@),
            Some(tag) => exists|middle: AviaryApp|
                self.tag_moved(middle, account_id.0@, id@, to, new_name@) && #[trigger] middle.retagged(
                    after,
                    account_id.0@,
                    tag@,
                    new_name@,
                ),
        }
    }

    /// A tag was renamed, and may have another id now. Messages that carry it by its name
    /// get the new name.
    pub fn on_tag_renamed(
        &mut self,
        account_id: AccountId,
        id: String,
        new_id: Option<String>,
        old_message_tag: Option<String>,
        new_name: String,
    )
        ensures
            old(self).tag_renamed_handled(*final(self), account_id, id, new_id, old_message_tag, new_name),
    {
        let effective: String = match new_id {
            Some(new_id) => new_id,
            None => id.clone(),
        };
        self.move_tag(&account_id, &id, &effective, &new_name);
        if let Some(tag) = old_message_tag {
            let ghost middle = *self;
            self.replace_loaded_message_tag(&account_id, &tag, &new_name);
            assert(middle.retagged(*self, account_id.0@, tag@, new_name@));
        }
    }

    /// The filters after a tag of an account went away: an account without filtered tags
    /// has no entry.
    pub open spec fn filters_without(before: AccountMap<Vec<String>>, after: AccountMap<Vec<String>>, account_id: Seq<char>, id: Seq<char>) -> bool {
        if before@.contains_key(account_id) {
            let rest = before@[account_id].deep_view().filter(other_text(id));
            if rest.len() == 0 {
                after@ == before@.remove(account_id)
            } else {
                &&& after@ == before@.insert(account_id, after@[account_id])
                &&& after@[account_id].deep_view() == rest
            }
        } else {
            after == before
        }
    }

    fn drop_from_filter(&mut self, account_id: &AccountId, id: &String)
        ensures
            Self::filters_without(
                old(self).mailbox.filters.tag_filters,
                final(self).mailbox.filters.tag_filters,
                account_id.0@,
                id@,
            ),
            *final(self) == (AviaryApp {
                mailbox: MailboxState {
                    filters: FilterState {
                        tag_filters: final(self).mailbox.filters.tag_filters,
                        ..old(self).mailbox.filters
                    },
                    ..old(self).mailbox
                },
                ..*old(self)
            }),
    {
        let ghost before = self.mailbox.filters.tag_filters@;
        let mut emptied = false;
        if let Some(filter) = self.mailbox.filters.tag_filters.get_mut(account_id) {
            remove_text(filter, id);
            assert(filter.deep_view().len() == filter.len());
            emptied = filter.len() == 0;
        }
        if emptied {
            let _removed = self.mailbox.filters.tag_filters.remove(account_id);
            assert(self.mailbox.filters.tag_filters@ =~= before.remove(account_id.0@));
        }
    }

    /// What `on_tag_deleted` does.
    pub open spec fn tag_deleted_handled(self, after: AviaryApp, account_id: AccountId, id: String) -> bool {
        &&& Self::filters_without(
            self.mailbox.filters.tag_filters,
            after.mailbox.filters.tag_filters,
            account_id.0@,
            id@,
        )
        &&& if self.tags.by_account@.contains_key(account_id.0@) {
            let rest = tags_of(self.tags.by_account, account_id.0@).filter(tag_other(id@));
            let part = match self.kanban.board(account_id.0@) {
                Some(board) => Some((AccountBoardStateView { tags: rest, ..board }).without_column(id@)),
                None => None,
            };
            &&& after.tags.by_account@ == self.tags.by_account@.insert(
                account_id.0@,
                after.tags.by_account@[account_id.0@],
            )
            &&& after.tags.by_account@[account_id.0@].deep_view() == rest
            &&& after.kanban.board(account_id.0@) == part
            &&& after.kanban.same_elsewhere(self.kanban, account_id.0@)
            &&& after.kanban.outdated(self.kanban, tag_changes(self.kanban.board(account_id.0@), rest) + 1)
            &&& after.kanban.hovered_cards.deep_view() == self.kanban.hovered_cards.deep_view().filter(after.kanban.hover_is_shown())
            &&& after.kanban.preview == self.kanban.preview
            &&& after.kanban.column_scrolls == self.kanban.column_scrolls
            &&& account_set(
                self.settings,
                after.settings,
                account_id.0@,
                AccountSettingsView {
                    kanban_tag_columns: match part {
                        Some(board) => board.column_ids(),
                        None => Seq::empty(),
                    },
                    ..self.settings.account_view(account_id.0@)
                },
            )
            &&& after.asked(self, seq![EffectView::SaveSettings])
        } else {
            &&& after.tags == self.tags
            &&& after.kanban == self.kanban
            &&& after.settings == self.settings
            &&& after.effects == self.effects
        }
        &&& after == (AviaryApp {
            settings: after.settings,
            tags: TagsState { by_account: after.tags.by_account, ..self.tags },
            kanban: after.kanban,
            mailbox: MailboxState {
                filters: FilterState {
                    tag_filters: after.mailbox.filters.tag_filters,
                    ..self.mailbox.filters
                },
                ..self.mailbox
            },
            effects: after.effects,
            ..self
        })
    }

    /// A tag was deleted.
    pub fn on_tag_deleted(&mut self, account_id: AccountId, id: String)
        ensures
            old(self).tag_deleted_handled(*final(self), account_id, id),
    {
        self.drop_from_filter(&account_id, &id);
        let mut known = false;
        if let Some(tags) = self.tags.by_account.get_mut(&account_id) {
            let taken = take_list(tags);
            *tags = retain_where(
                taken,
                |tag: &Tag| -> (keep: bool)
                    ensures
                        keep == (tag.deep_view().id != id@)
                    { tag.id != id },
                Ghost(tag_other(id@)),
            );
            known = true;
        }
        reveal_with_fuel(bumped, 3);
        if known {
            self.show_known_tags(&account_id);
            self.kanban.remove_column(&account_id, id.as_str());
            self.keep_columns(&account_id);
            self.send(Effect::SaveSettings);
        }
    }

    /// Changes the tags of message `id` in the list and the results.
    fn toggle_on_headers(&mut self, id: &String, key: &String, added: bool)
        ensures
            final(self).mailbox.messages.deep_view() == old(self).mailbox.messages.deep_view().map_values(
                header_toggled(id@, key@, added),
            ),
            final(self).mailbox.search.results.deep_view() == in_results(
                old(self).mailbox.search.results.deep_view(),
                header_toggled(id@, key@, added),
            ),
            *final(self) == (AviaryApp {
                mailbox: MailboxState {
                    messages: final(self).mailbox.messages,
                    search: SearchState {
                        results: final(self).mailbox.search.results,
                        ..old(self).mailbox.search
                    },
                    ..old(self).mailbox
                },
                ..*old(self)
            }),
    {
        toggle_headers(&mut self.mailbox.messages, id, key, added);
        if let Some(results) = &mut self.mailbox.search.results {
            toggle_headers(results, id, key, added);
        }
    }

    /// What `on_tag_applied` does.
    pub open spec fn tag_applied_handled(self, after: AviaryApp, account_id: AccountId, message_id: String, tag_id: String, added: bool) -> bool {
        let key = self.message_key(account_id.0@, tag_id@);
        &&& after.mailbox.messages.deep_view() == self.mailbox.messages.deep_view().map_values(
            header_toggled(message_id@, key, added),
        )
        &&& after.mailbox.search.results.deep_view() == in_results(
            self.mailbox.search.results.deep_view(),
            header_toggled(message_id@, key, added),
        )
        &&& after.mailbox.viewer.selected.deep_view() == in_selected(
            self.mailbox.viewer.selected.deep_view(),
            message_toggled(message_id@, key, added),
        )
        &&& part_set(
            self.kanban,
            after.kanban,
            account_id.0@,
            self.kanban.board(account_id.0@)->0.with_loading(tag_id@),
            1,
        )
        &&& after.asked(
            self,
            seq![EffectView::LoadTagListing { account_id: account_id.0@, tag_id: tag_id@, limit: COLUMN_LIMIT }],
        )
        &&& after == (AviaryApp {
            mailbox: MailboxState {
                messages: after.mailbox.messages,
                search: SearchState {
                    results: after.mailbox.search.results,
                    ..self.mailbox.search
                },
                viewer: ViewerState {
                    selected: after.mailbox.viewer.selected,
                    ..self.mailbox.viewer
                },
                ..self.mailbox
            },
            kanban: after.kanban,
            effects: after.effects,
            ..self
        })
    }

    /// A tag was put on a message or taken off.
    pub fn on_tag_applied(&mut self, account_id: AccountId, message_id: String, tag_id: String, added: bool)
        ensures
            old(self).tag_applied_handled(*final(self), account_id, message_id, tag_id, added),
    {
        let key = self.tag_key(&account_id, &tag_id);
        self.toggle_on_headers(&message_id, &key, added);
        map_selected(
            &mut self.mailbox.viewer.selected,
            |message: Message| -> (toggled: Message)
                ensures
                    toggled.deep_view() == message_toggled(message_id@, key@, added)(message.deep_view())
                {
                let mut message = message;
                if message.header.id == message_id {
                    toggle_tag(&mut message.tags, &key, added);
                }
                message
            },
            Ghost(message_toggled(message_id@, key@, added)),
        );
        reveal_with_fuel(bumped, 2);
        self.kanban.mark_column_loading(&account_id, tag_id.as_str());
        self.send(Effect::LoadTagListing { account_id, tag_id, limit: COLUMN_LIMIT });
    }

    /// What `on_tag_apply_error` does.
    pub open spec fn tag_apply_error_handled(self, after: AviaryApp, account_id: AccountId) -> bool {
        &&& match self.kanban.board(account_id.0@) {
            Some(board) => {
                &&& after.kanban.board(account_id.0@) == Some(all_loading(board, board.column_ids()))
                &&& after.asked(self, listing_asks(account_id.0@, board.column_ids()))
                &&& after.kanban.outdated(self.kanban, board.columns.len())
            },
            None => {
                &&& after.kanban.board(account_id.0@) is None
                &&& after.kanban.outdated(self.kanban, 0)
                &&& after.asked(self, Seq::empty())
            },
        }
        &&& after.kanban.same_elsewhere(self.kanban, account_id.0@)
        &&& after.kanban.preview == self.kanban.preview
        &&& after.kanban.hovered_cards == self.kanban.hovered_cards
        &&& after.kanban.column_scrolls == self.kanban.column_scrolls
        &&& after == (AviaryApp { kanban: after.kanban, effects: after.effects, ..self })
    }

    /// A tag could not be put on a message or taken off. A card that moves between columns
    /// leaves one and enters the other; when half of that fails, all columns of the account
    /// are loaded again.
    pub fn on_tag_apply_error(&mut self, account_id: AccountId)
        ensures
            old(self).tag_apply_error_handled(*final(self), account_id),
    {
        let ghost start = *self;
        let tag_ids = self.kanban.column_ids(&account_id);
        let ghost ids = tag_ids.deep_view();
        let ghost ask = |tag_id: Seq<char>| EffectView::LoadTagListing { account_id: account_id.0@, tag_id, limit: COLUMN_LIMIT };
        let mut i: usize = 0;
        proof {
            assert(ids.take(0) =~= Seq::empty());
            assert(self.effects.deep_view() =~= start.effects.deep_view() + listing_asks(account_id.0@, ids.take(0)));
        }
        while i < tag_ids.len()
            invariant
                i <= tag_ids.len(),
                ids == tag_ids.deep_view(),
                ask == (|tag_id: Seq<char>| EffectView::LoadTagListing { account_id: account_id.0@, tag_id, limit: COLUMN_LIMIT }),
                self.kanban.board(account_id.0@) == match start.kanban.board(account_id.0@) {
                    Some(board) => Some(all_loading(board, ids.take(i as int))),
                    None => None,
                },
                self.asked(start, listing_asks(account_id.0@, ids.take(i as int))),
                self.kanban.outdated(start.kanban, i as nat),
                self.kanban.same_elsewhere(start.kanban, account_id.0@),
                self.kanban.preview == start.kanban.preview,
                self.kanban.hovered_cards == start.kanban.hovered_cards,
                self.kanban.column_scrolls == start.kanban.column_scrolls,
                *self == (AviaryApp { kanban: self.kanban, effects: self.effects, ..start }),
            decreases tag_ids.len() - i,
        {
            assert(ids[i as int] == tag_ids[i as int]@);
            assert(ids.take(i + 1).drop_last() =~= ids.take(i as int));
            self.kanban.mark_column_loading(&account_id, tag_ids[i].as_str());
            let ghost middle = *self;
            self.send(Effect::LoadTagListing { account_id: account_id.clone(), tag_id: tag_ids[i].clone(), limit: COLUMN_LIMIT });
            proof {
                let before = listing_asks(account_id.0@, ids.take(i as int));
                assert(middle.asked(start, before));
                AviaryApp::lemma_asked(start, middle, *self, before, seq![ask(ids[i as int])]);
                assert(before + seq![ask(ids[i as int])] =~= listing_asks(account_id.0@, ids.take(i + 1)));
            }
            i += 1;
        }
        assert(ids.take(ids.len() as int) =~= ids);
        assert(listing_asks(account_id.0@, Seq::empty()) =~= Seq::empty());
    }

    /// What `on_tag_listing` does.
    pub open spec fn tag_listing_handled(self, after: AviaryApp, account_id: AccountId, tag_id: String, messages: Vec<MessageHeader>) -> bool {
        &&& match self.kanban.board(account_id.0@) {
            Some(board) => {
                &&& after.kanban.board(account_id.0@) == Some(
                    board.with_messages(tag_id@, messages.deep_view()),
                )
                &&& after.kanban.same_elsewhere(self.kanban, account_id.0@)
                &&& after.kanban.hovered_cards.deep_view() == self.kanban.hovered_cards.deep_view().filter(after.kanban.hover_is_shown())
            },
            None => after.kanban.accounts == self.kanban.accounts && after.kanban.hovered_cards
                == self.kanban.hovered_cards,
        }
        &&& after.kanban.invalidated(self.kanban)
        &&& after.kanban.preview == self.kanban.preview
        &&& after.kanban.column_scrolls == self.kanban.column_scrolls
        &&& after == (AviaryApp { kanban: after.kanban, ..self })
    }

    /// The messages of a tag came.
    pub fn on_tag_listing(&mut self, account_id: AccountId, tag_id: String, messages: Vec<MessageHeader>)
        ensures
            old(self).tag_listing_handled(*final(self), account_id, tag_id, messages),
    {
        self.kanban.set_column_messages(&account_id, tag_id.as_str(), messages);
    }
}

/// Puts a tag on the headers of message `id` or takes it off.
fn toggle_headers(headers: &mut Vec<MessageHeader>, id: &String, key: &String, added: bool)
    ensures
        final(headers).deep_view() == old(headers).deep_view().map_values(header_toggled(id@, key@, added)),
{
    let taken = take_list(headers);
    *headers = map_each(
        taken,
        |header: MessageHeader| -> (toggled: MessageHeader)
            ensures
                toggled.deep_view() == header_toggled(id@, key@, added)(header.deep_view())
            {
            let mut header = header;
            if header.id == *id {
                toggle_tag(&mut header.tags, key, added);
            }
            header
        },
        Ghost(header_toggled(id@, key@, added)),
    );
}

/// A tag that was put on a message is there once, and one that was taken off is not there;
/// the other tags stay. To do so again changes nothing, and to put a new tag on and take it
/// off again gives back what there was.
pub proof fn law_tags_are_put_on_once(tags: Seq<Seq<char>>, key: Seq<char>, other: Seq<char>, added: bool)
    ensures
        toggled_tag(tags, key, added).contains(key) == added,
        other != key ==> toggled_tag(tags, key, added).contains(other) == tags.contains(other),
        toggled_tag(toggled_tag(tags, key, added), key, added) == toggled_tag(tags, key, added),
        !tags.contains(key) ==> toggled_tag(toggled_tag(tags, key, true), key, false) == tags,
        tags.no_duplicates() ==> toggled_tag(tags, key, added).no_duplicates(),
{
    let rest = tags.filter(other_text(key));
    let after = toggled_tag(tags, key, added);
    lemma_other_texts(tags, key);
    if other != key && tags.contains(other) {
        lemma_filter_keeps(tags, other_text(key), other);
        let k = choose|k: int| 0 <= k < rest.len() && rest[k] == other;
        assert(after[k] == other);
    }
    if other != key && after.contains(other) {
        let k = choose|k: int| 0 <= k < after.len() && after[k] == other;
        assert(rest[k] == other);
        assert(rest.contains(other));
    }
    if added {
        assert(after[rest.len() as int] == key);
    }
    assert(rest.filter(other_text(key)) =~= rest) by {
        lemma_filter_all(rest, other_text(key));
    }
    assert(rest.push(key).filter(other_text(key)) =~= rest) by {
        reveal(Seq::filter);
        assert(rest.push(key).drop_last() =~= rest);
    }
    if !tags.contains(key) {
        assert forall|i: int| 0 <= i < tags.len() implies other_text(key)(#[trigger] tags[i]) by {}
        lemma_filter_all(tags, other_text(key));
    }
}

} // verus!
