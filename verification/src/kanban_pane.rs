//! The board of tagged messages in the window: loading it, changing it, and what it shows.
use crate::app::is_text;
use crate::folder_tree::{Label, LabelView};
use crate::kanban::{
    column_position, lemma_outdated, AccountBoardStateView, BoardState, COLUMN_LIMIT, CardDrag, CardDragView, MergedColumn, MergedColumnView,
    MergedTagTarget, MergedTagTargetView, TagColumn, TagColumnView,
};
use crate::kanban_columns::{
    accounts_losing, adding_names, all_keys, AvailableTag, AvailableTagView, boards_added, boards_with_key, boards_with_keys,
    boards_without_key,
};
use crate::lists::{distinct, first_index, first_where, lemma_first_index, position_where};
use crate::message_list::lemma_contains_push;
use crate::message_row::{label_of_subject, subject_label};
use crate::model::{
    clone_list, AccountId, AccountView, MessageHeader, MessageHeaderView, MessageRef, MessageRefView, Tag,
};
use crate::settings::{AccountSettingsView, Settings};
use crate::state::{AviaryApp, Effect, EffectView, TagsState};
use crate::tag_events::{board_or_new, listing_asks};
use crate::text::{trim, trimmed};
use vstd::prelude::*;

verus! {

/// What stands below the cards of a column.
#[derive(Debug, Clone, Copy, PartialEq, Eq, Structural)]
pub enum ColumnNote {
    Nothing,
    Loading,
    Empty,
}

/// What the board shows.
#[derive(Debug, Clone, Copy, PartialEq, Eq, Structural)]
pub enum BoardBody {
    /// There is no account.
    AccountRequired,
    /// There is no column.
    GetStarted,
    Columns,
}

impl DeepView for BoardBody {
    type V = BoardBody;

    open spec fn deep_view(&self) -> BoardBody {
        *self
    }
}

/// A column in the list beside the board.
#[derive(Debug, PartialEq, Eq)]
pub struct SidebarColumn {
    pub title: String,
    /// How many tags stand behind the column.
    pub accounts: usize,
    pub cards: usize,
}

/// Mathematical form of [`SidebarColumn`].
#[verifier::ext_equal]
pub struct SidebarColumnView {
    pub title: Seq<char>,
    pub accounts: usize,
    pub cards: usize,
}

impl DeepView for SidebarColumn {
    type V = SidebarColumnView;

    open spec fn deep_view(&self) -> SidebarColumnView {
        SidebarColumnView {
            title: self.title.deep_view(),
            accounts: self.accounts,
            cards: self.cards,
        }
    }
}

/// An account in the legend of the board.
#[derive(Debug, PartialEq, Eq)]
pub struct LegendEntry {
    pub label: String,
    pub color_override: Option<u32>,
}

/// Mathematical form of [`LegendEntry`].
#[verifier::ext_equal]
pub struct LegendEntryView {
    pub label: Seq<char>,
    pub color_override: Option<u32>,
}

impl DeepView for LegendEntry {
    type V = LegendEntryView;

    open spec fn deep_view(&self) -> LegendEntryView {
        LegendEntryView {
            label: self.label.deep_view(),
            color_override: self.color_override,
        }
    }
}

/// The list beside the board.
#[derive(Debug, PartialEq, Eq)]
pub struct KanbanSidebar {
    pub account_count: usize,
    pub columns: Vec<SidebarColumn>,
    /// Whether it says how to begin.
    pub get_started: bool,
    pub legend: Vec<LegendEntry>,
}

/// Mathematical form of [`KanbanSidebar`].
#[verifier::ext_equal]
pub struct KanbanSidebarView {
    pub account_count: usize,
    pub columns: Seq<SidebarColumnView>,
    pub get_started: bool,
    pub legend: Seq<LegendEntryView>,
}

impl DeepView for KanbanSidebar {
    type V = KanbanSidebarView;

    open spec fn deep_view(&self) -> KanbanSidebarView {
        KanbanSidebarView {
            account_count: self.account_count,
            columns: self.columns.deep_view(),
            get_started: self.get_started,
            legend: self.legend.deep_view(),
        }
    }
}

/// A card as it is shown.
#[derive(Debug, PartialEq, Eq)]
pub struct CardFace {
    pub subject: Label,
    pub from: String,
    pub received: i128,
    pub color_override: Option<u32>,
}

/// Mathematical form of [`CardFace`].
#[verifier::ext_equal]
pub struct CardFaceView {
    pub subject: LabelView,
    pub from: Seq<char>,
    pub received: i128,
    pub color_override: Option<u32>,
}

impl DeepView for CardFace {
    type V = CardFaceView;

    open spec fn deep_view(&self) -> CardFaceView {
        CardFaceView {
            subject: self.subject.deep_view(),
            from: self.from.deep_view(),
            received: self.received,
            color_override: self.color_override,
        }
    }
}

/// A line of the menu that adds a column.
#[derive(Debug, PartialEq, Eq)]
pub enum AddColumnLine {
    Existing { key: String, title: String, color: Option<u32> },
    Rule,
    Create,
}

/// Mathematical form of [`AddColumnLine`].
#[verifier::ext_equal]
pub enum AddColumnLineView {
    Existing { key: Seq<char>, title: Seq<char>, color: Option<u32> },
    Rule,
    Create,
}

impl DeepView for AddColumnLine {
    type V = AddColumnLineView;

    open spec fn deep_view(&self) -> AddColumnLineView {
        match self {
            AddColumnLine::Existing { key, title, color } => AddColumnLineView::Existing { key: key.deep_view(), title: title.deep_view(), color: *color },
            AddColumnLine::Rule => AddColumnLineView::Rule,
            AddColumnLine::Create => AddColumnLineView::Create,
        }
    }
}


/// The columns of an account on the board.
pub open spec fn shown_columns(kanban: BoardState, id: Seq<char>) -> Seq<Seq<char>> {
    match kanban.board(id) {
        Some(board) => board.column_ids(),
        None => Seq::empty(),
    }
}

/// The settings of the accounts `ids` name the columns that the board shows; nothing else
/// in the settings changed.
pub open spec fn columns_kept(before: Settings, after: Settings, kanban: BoardState, ids: Seq<Seq<char>>) -> bool {
    &&& after.global == before.global
    &&& forall|id: Seq<char>| #[trigger]
        after.account_view(id) == (if ids.contains(id) {
            AccountSettingsView { kanban_tag_columns: shown_columns(kanban, id), ..before.account_view(id) }
        } else {
            before.account_view(id)
        })
    &&& forall|id: Seq<char>| #[trigger]
        after.accounts@.contains_key(id) == (before.accounts@.contains_key(id) || ids.contains(id))
    &&& forall|id: Seq<char>|
        !ids.contains(id) && before.accounts@.contains_key(id) ==> #[trigger] after.accounts@[id]
            == before.accounts@[id]
}

/// The account of each pair.
pub open spec fn accounts_of(pairs: Seq<(Seq<char>, Seq<char>)>) -> Seq<Seq<char>> {
    pairs.map_values(|pair: (Seq<char>, Seq<char>)| pair.0)
}

/// The requests for the messages of tags.
pub open spec fn pair_asks(pairs: Seq<(Seq<char>, Seq<char>)>) -> Seq<EffectView> {
    pairs.map_values(
        |pair: (Seq<char>, Seq<char>)| EffectView::LoadTagListing { account_id: pair.0, tag_id: pair.1, limit: COLUMN_LIMIT },
    )
}

/// What saving the columns of `ids` asks for: nothing without accounts.
pub open spec fn save_asks(ids: Seq<Seq<char>>) -> Seq<EffectView> {
    if ids.len() == 0 {
        Seq::empty()
    } else {
        seq![EffectView::SaveSettings]
    }
}

/// Whether a column has yet to be loaded.
pub open spec fn unloaded() -> spec_fn(TagColumnView) -> bool {
    |column: TagColumnView| !column.loaded && !column.loading
}

/// The tags of the columns that have yet to be loaded.
pub open spec fn pending_tags(columns: Seq<TagColumnView>) -> Seq<Seq<char>> {
    columns.filter(unloaded()).map_values(|column: TagColumnView| column.tag_id)
}

/// A column that is being loaded if its tag is one of `tags`.
pub open spec fn marked_loading(tags: Seq<Seq<char>>) -> spec_fn(TagColumnView) -> TagColumnView {
    |column: TagColumnView|
        if tags.contains(column.tag_id) {
            TagColumnView { loading: true, ..column }
        } else {
            column
        }
}

/// A part of the board once all its columns are loaded or being loaded.
pub open spec fn board_loading(board: AccountBoardStateView) -> AccountBoardStateView {
    AccountBoardStateView {
        columns: board.columns.map_values(marked_loading(pending_tags(board.columns))),
        ..board
    }
}

/// Whether a target belongs to an account.
pub open spec fn target_of(account_id: Seq<char>) -> spec_fn(MergedTagTargetView) -> bool {
    |target: MergedTagTargetView| target.account_id == account_id
}

/// Where a card goes that is dropped on a column: to the tag of its own account there, if
/// that is another one.
pub open spec fn drop_tag(targets: Seq<MergedTagTargetView>, drag: CardDragView) -> Option<Seq<char>> {
    match first_where(targets, target_of(drag.account_id)) {
        Some(target) => if target.tag_id == drag.source_tag_id {
            None
        } else {
            Some(target.tag_id)
        },
        None => None,
    }
}

/// Columns after a message left one of them.
pub open spec fn taken_from(columns: Seq<TagColumnView>, tag_id: Seq<char>, id: Seq<char>) -> Seq<TagColumnView> {
    match first_index(columns, crate::kanban::column_of(tag_id)) {
        Some(i) => columns.update(
            i,
            TagColumnView {
                messages: columns[i].messages.filter(crate::headers::other_message_id(id)),
                ..columns[i]
            },
        ),
        None => columns,
    }
}

/// Columns after a message came to the top of one of them.
pub open spec fn put_into(columns: Seq<TagColumnView>, tag_id: Seq<char>, message: MessageHeaderView) -> Seq<
    TagColumnView,
> {
    match first_index(columns, crate::kanban::column_of(tag_id)) {
        Some(i) => columns.update(
            i,
            TagColumnView { messages: seq![message] + columns[i].messages, ..columns[i] },
        ),
        None => columns,
    }
}

fn take_from(columns: &mut Vec<TagColumn>, tag_id: &String, id: &String)
    ensures
        final(columns).deep_view() == taken_from(old(columns).deep_view(), tag_id@, id@),
{
    let ghost before = columns.deep_view();
    if let Some(i) = column_position(columns, tag_id.as_str()) {
        let ghost raw = columns@;
        assert(before[i as int] == raw[i as int].deep_view());
        let column = &mut columns[i];
        crate::headers::drop_id(&mut column.messages, id);
        assert(columns.deep_view() =~= taken_from(before, tag_id@, id@));
    }
}

fn put_at_top(columns: &mut Vec<TagColumn>, tag_id: &String, message: MessageHeader)
    ensures
        final(columns).deep_view() == put_into(old(columns).deep_view(), tag_id@, message.deep_view()),
{
    let ghost before = columns.deep_view();
    if let Some(i) = column_position(columns, tag_id.as_str()) {
        let ghost raw = columns@;
        assert(before[i as int] == raw[i as int].deep_view());
        let ghost rest = raw[i as int].messages.deep_view();
        let column = &mut columns[i];
        column.messages.insert(0, message);
        assert(column.messages.deep_view() =~= seq![message.deep_view()] + rest);
        assert(columns.deep_view() =~= put_into(before, tag_id@, message.deep_view()));
    }
}

fn collect_pending(columns: &Vec<TagColumn>) -> (tags: Vec<String>)
    ensures
        tags.deep_view() == pending_tags(columns.deep_view()),
{
    let ghost all = columns.deep_view();
    let ghost name = |column: TagColumnView| column.tag_id;
    let mut tags: Vec<String> = Vec::new();
    let mut i: usize = 0;
    proof {
        reveal(Seq::filter);
        assert(tags.deep_view() =~= all.take(0).filter(unloaded()).map_values(name));
    }
    while i < columns.len()
        invariant
            i <= columns.len(),
            all == columns.deep_view(),
            name == (|column: TagColumnView| column.tag_id),
            tags.deep_view() == all.take(i as int).filter(unloaded()).map_values(name),
        decreases columns.len() - i,
    {
        let ghost before = tags.deep_view();
        proof {
            reveal(Seq::filter);
            assert(all[i as int] == columns[i as int].deep_view());
            assert(all.take(i + 1).drop_last() =~= all.take(i as int));
            let front = all.take(i as int).filter(unloaded());
            assert(front.push(all[i as int]).map_values(name) =~= front.map_values(name).push(name(all[i as int])));
        }
        if !columns[i].loaded && !columns[i].loading {
            tags.push(columns[i].tag_id.clone());
            assert(tags.deep_view() =~= before.push(all[i as int].tag_id));
        }
        i += 1;
    }
    assert(all.take(all.len() as int) =~= all);
    tags
}

fn mark_loading(columns: &mut Vec<TagColumn>, tags: &Vec<String>)
    ensures
        final(columns).deep_view() == old(columns).deep_view().map_values(marked_loading(tags.deep_view())),
{
    let ghost raw = columns@;
    let mut i: usize = 0;
    while i < columns.len()
        invariant
            i <= columns.len(),
            columns.len() == raw.len(),
            forall|j: int|
                0 <= j < i ==> (#[trigger] columns[j]).deep_view() == marked_loading(tags.deep_view())(
                    raw[j].deep_view(),
                ),
            forall|j: int| i <= j < raw.len() ==> #[trigger] columns[j] == raw[j],
        decreases columns.len() - i,
    {
        if crate::list_entries::holds_text(tags, &columns[i].tag_id) {
            let column = &mut columns[i];
            column.loading = true;
        }
        i += 1;
    }
    assert(columns.deep_view() =~= old(columns).deep_view().map_values(marked_loading(tags.deep_view())));
}

/// What stands below the cards of a column.
pub open spec fn note_of(column: MergedColumnView) -> ColumnNote {
    if !column.loaded {
        ColumnNote::Loading
    } else if column.cards.len() == 0 {
        ColumnNote::Empty
    } else {
        ColumnNote::Nothing
    }
}

/// What stands below the cards of a column.
pub fn column_note(column: &MergedColumn) -> (note: ColumnNote)
    ensures
        note == note_of(column.deep_view()),
{
    assert(column.cards.deep_view().len() == column.cards.len());
    if !column.loaded {
        ColumnNote::Loading
    } else if column.cards.len() == 0 {
        ColumnNote::Empty
    } else {
        ColumnNote::Nothing
    }
}

/// A column in the list beside the board.
pub open spec fn sidebar_column() -> spec_fn(MergedColumnView) -> SidebarColumnView {
    |column: MergedColumnView|
        SidebarColumnView {
            title: column.title,
            accounts: column.targets.len() as usize,
            cards: column.cards.len() as usize,
        }
}

/// The menu that adds a column: the tags without one, and the way to make a tag.
pub open spec fn add_column_lines(tags: Seq<AvailableTagView>) -> Seq<AddColumnLineView> {
    tags.map_values(
        |tag: AvailableTagView| AddColumnLineView::Existing { key: tag.key, title: tag.title, color: tag.color },
    ) + (if tags.len() > 0 {
        seq![AddColumnLineView::Rule]
    } else {
        Seq::empty()
    }) + seq![AddColumnLineView::Create]
}

/// The menu that adds a column.
pub fn add_column_menu(tags: &Vec<AvailableTag>) -> (menu: Vec<AddColumnLine>)
    ensures
        menu.deep_view() == add_column_lines(tags.deep_view()),
{
    let ghost all = tags.deep_view();
    let ghost line = |tag: AvailableTagView|
        AddColumnLineView::Existing { key: tag.key, title: tag.title, color: tag.color };
    let mut menu: Vec<AddColumnLine> = Vec::new();
    let mut i: usize = 0;
    while i < tags.len()
        invariant
            i <= tags.len(),
            all == tags.deep_view(),
            menu.len() == i,
            line == (|tag: AvailableTagView|
                AddColumnLineView::Existing { key: tag.key, title: tag.title, color: tag.color }),
            forall|j: int| 0 <= j < i ==> (#[trigger] menu[j]).deep_view() == line(all[j]),
        decreases tags.len() - i,
    {
        assert(all[i as int] == tags[i as int].deep_view());
        menu.push(
            AddColumnLine::Existing { key: tags[i].key.clone(), title: tags[i].title.clone(), color: tags[i].color },
        );
        i += 1;
    }
    let ghost first = menu.deep_view();
    assert(first =~= all.map_values(line));
    if tags.len() > 0 {
        menu.push(AddColumnLine::Rule);
    }
    menu.push(AddColumnLine::Create);
    assert(menu.deep_view() =~= add_column_lines(all));
    menu
}

impl AviaryApp {
    /// Lets the settings of accounts name the columns that the board shows.
    pub fn persist_kanban_columns_for(&mut self, account_ids: &Vec<AccountId>)
        ensures
            columns_kept(
                old(self).settings,
                final(self).settings,
                old(self).kanban,
                account_ids.deep_view(),
            ),
            final(self).asked(*old(self), save_asks(account_ids.deep_view())),
            *final(self) == (AviaryApp {
                settings: final(self).settings,
                effects: final(self).effects,
                ..*old(self)
            }),
    {
        let ghost start = *self;
        let ghost ids = account_ids.deep_view();
        assert(ids.len() == account_ids.len());
        assert(self.effects.deep_view() =~= start.effects.deep_view() + Seq::<EffectView>::empty());
        if account_ids.len() == 0 {
            return;
        }
        let mut i: usize = 0;
        while i < account_ids.len()
            invariant
                i <= account_ids.len(),
                ids == account_ids.deep_view(),
                columns_kept(start.settings, self.settings, start.kanban, ids.take(i as int)),
                *self == (AviaryApp { settings: self.settings, ..start }),
            decreases account_ids.len() - i,
        {
            let ghost middle = self.settings;
            assert(ids[i as int] == account_ids[i as int].0@);
            self.keep_columns(&account_ids[i]);
            proof {
                let id = ids[i as int];
                assert(ids.take(i + 1) =~= ids.take(i as int).push(id));
                assert forall|other: Seq<char>| #[trigger] self.settings.account_view(other) == (if ids.take(
                    i + 1,
                ).contains(other) {
                    AccountSettingsView {
                        kanban_tag_columns: shown_columns(start.kanban, other),
                        ..start.settings.account_view(other)
                    }
                } else {
                    start.settings.account_view(other)
                }) by {
                    lemma_contains_push(ids.take(i as int), id, other);
                    assert(middle.account_view(other) == (if ids.take(i as int).contains(other) {
                        AccountSettingsView {
                            kanban_tag_columns: shown_columns(start.kanban, other),
                            ..start.settings.account_view(other)
                        }
                    } else {
                        start.settings.account_view(other)
                    }));
                    if other != id {
                        assert(self.settings.accounts@.contains_key(other) == middle.accounts@.contains_key(other));
                        assert(self.settings.account_view(other) == middle.account_view(other));
                    }
                }
                assert forall|other: Seq<char>| #[trigger] self.settings.accounts@.contains_key(other) == (
                start.settings.accounts@.contains_key(other) || ids.take(i + 1).contains(other)) by {
                    lemma_contains_push(ids.take(i as int), id, other);
                    assert(middle.accounts@.contains_key(other) == (start.settings.accounts@.contains_key(other)
                        || ids.take(i as int).contains(other)));
                }
                assert forall|other: Seq<char>|
                    !ids.take(i + 1).contains(other) && start.settings.accounts@.contains_key(
                        other,
                    ) implies #[trigger] self.settings.accounts@[other] == start.settings.accounts@[other] by {
                    lemma_contains_push(ids.take(i as int), id, other);
                    assert(middle.accounts@[other] == start.settings.accounts@[other]);
                }
            }
            i += 1;
        }
        assert(ids.take(ids.len() as int) =~= ids);
        self.send(Effect::SaveSettings);
    }

    fn ask_listings(&mut self, pairs: Vec<(AccountId, String)>)
        ensures
            final(self).asked(*old(self), pair_asks(pairs.deep_view())),
            *final(self) == (AviaryApp { effects: final(self).effects, ..*old(self) }),
    {
        let ghost start = *self;
        let ghost all = pairs.deep_view();
        let mut i: usize = 0;
        assert(self.effects.deep_view() =~= start.effects.deep_view() + pair_asks(all.take(0)));
        while i < pairs.len()
            invariant
                i <= pairs.len(),
                all == pairs.deep_view(),
                self.asked(start, pair_asks(all.take(i as int))),
                *self == (AviaryApp { effects: self.effects, ..start }),
            decreases pairs.len() - i,
        {
            let ghost middle = *self;
            assert(all[i as int] == pairs[i as int].deep_view());
            self.send(Effect::LoadTagListing { account_id: pairs[i].0.clone(), tag_id: pairs[i].1.clone(), limit: COLUMN_LIMIT });
            proof {
                let ask = seq![EffectView::LoadTagListing { account_id: all[i as int].0, tag_id: all[i as int].1, limit: COLUMN_LIMIT }];
                AviaryApp::lemma_asked(start, middle, *self, pair_asks(all.take(i as int)), ask);
                assert(pair_asks(all.take(i as int)) + ask =~= pair_asks(all.take(i + 1)));
            }
            i += 1;
        }
        assert(all.take(all.len() as int) =~= all);
    }

    fn ask_columns(&mut self, account_id: &AccountId, tags: &Vec<String>)
        ensures
            final(self).asked(*old(self), listing_asks(account_id.0@, tags.deep_view())),
            *final(self) == (AviaryApp { effects: final(self).effects, ..*old(self) }),
    {
        let ghost start = *self;
        let ghost all = tags.deep_view();
        let ghost id = account_id.0@;
        let mut i: usize = 0;
        assert(self.effects.deep_view() =~= start.effects.deep_view() + listing_asks(id, all.take(0)));
        while i < tags.len()
            invariant
                i <= tags.len(),
                all == tags.deep_view(),
                id == account_id.0@,
                self.asked(start, listing_asks(id, all.take(i as int))),
                *self == (AviaryApp { effects: self.effects, ..start }),
            decreases tags.len() - i,
        {
            let ghost middle = *self;
            assert(all[i as int] == tags[i as int].deep_view());
            self.send(Effect::LoadTagListing { account_id: account_id.clone(), tag_id: tags[i].clone(), limit: COLUMN_LIMIT });
            proof {
                let ask = seq![EffectView::LoadTagListing { account_id: id, tag_id: all[i as int], limit: COLUMN_LIMIT }];
                AviaryApp::lemma_asked(start, middle, *self, listing_asks(id, all.take(i as int)), ask);
                assert(listing_asks(id, all.take(i as int)) + ask =~= listing_asks(id, all.take(i + 1)));
            }
            i += 1;
        }
        assert(all.take(all.len() as int) =~= all);
    }

    /// Keeps columns that were added and loads them.
    fn keep_and_load(&mut self, added: Vec<(AccountId, String)>)
        ensures
            columns_kept(
                old(self).settings,
                final(self).settings,
                old(self).kanban,
                accounts_of(added.deep_view()),
            ),
            final(self).asked(
                *old(self),
                save_asks(accounts_of(added.deep_view())) + pair_asks(added.deep_view()),
            ),
            *final(self) == (AviaryApp {
                settings: final(self).settings,
                effects: final(self).effects,
                ..*old(self)
            }),
    {
        let ghost start = *self;
        let mut changed: Vec<AccountId> = Vec::new();
        let mut i: usize = 0;
        while i < added.len()
            invariant
                i <= added.len(),
                changed.len() == i,
                forall|j: int| 0 <= j < i ==> (#[trigger] changed[j]).0@ == added[j].0.0@,
            decreases added.len() - i,
        {
            changed.push(added[i].0.clone());
            i += 1;
        }
        assert(changed.deep_view() =~= accounts_of(added.deep_view()));
        self.persist_kanban_columns_for(&changed);
        let ghost middle = *self;
        let ghost all = added.deep_view();
        self.ask_listings(added);
        proof {
            AviaryApp::lemma_asked(start, middle, *self, save_asks(accounts_of(all)), pair_asks(all));
        }
    }

    /// Shows the tags of one name as a column, in all accounts that have such a tag.
    pub fn add_merged_kanban_column(&mut self, key: &str)
        ensures
            ({
                let boards = old(self).kanban.accounts.entries.deep_view();
                let added = boards_added(boards, key@);
                &&& final(self).kanban.accounts.entries.deep_view() == boards_with_key(boards, key@)
                &&& columns_kept(old(self).settings, final(self).settings, final(self).kanban, accounts_of(added))
                &&& final(self).asked(*old(self), save_asks(accounts_of(added)) + pair_asks(added))
                &&& final(self).kanban.outdated(
                    old(self).kanban,
                    if added.len() > 0 {
                        1
                    } else {
                        0
                    },
                )
            }),
            final(self).kanban.preview == old(self).kanban.preview,
            final(self).kanban.hovered_cards == old(self).kanban.hovered_cards,
            final(self).kanban.column_scrolls == old(self).kanban.column_scrolls,
            *final(self) == (AviaryApp {
                settings: final(self).settings,
                kanban: final(self).kanban,
                effects: final(self).effects,
                ..*old(self)
            }),
    {
        reveal_with_fuel(crate::kanban::bumped, 2);
        let added = self.kanban.add_merged_column(key);
        self.keep_and_load(added);
    }

    /// Takes the columns of one name off the board, in all accounts.
    pub fn hide_kanban_column(&mut self, key: &str)
        ensures
            ({
                let boards = old(self).kanban.accounts.entries.deep_view();
                let changed = accounts_losing(boards, key@);
                &&& final(self).kanban.accounts.entries.deep_view() == boards_without_key(boards, key@)
                &&& columns_kept(old(self).settings, final(self).settings, final(self).kanban, changed)
                &&& final(self).asked(*old(self), save_asks(changed))
                &&& if changed.len() > 0 {
                    &&& final(self).kanban.outdated(old(self).kanban, 1)
                    &&& final(self).kanban.hovered_cards.deep_view() == old(self).kanban.hovered_cards.deep_view().filter(
                        final(self).kanban.hover_is_shown(),
                    )
                } else {
                    &&& final(self).kanban.outdated(old(self).kanban, 0)
                    &&& final(self).kanban.hovered_cards == old(self).kanban.hovered_cards
                }
            }),
            final(self).kanban.preview == old(self).kanban.preview,
            final(self).kanban.column_scrolls == old(self).kanban.column_scrolls,
            *final(self) == (AviaryApp {
                settings: final(self).settings,
                kanban: final(self).kanban,
                effects: final(self).effects,
                ..*old(self)
            }),
    {
        reveal_with_fuel(crate::kanban::bumped, 2);
        let changed = self.kanban.remove_merged_column(key);
        self.persist_kanban_columns_for(&changed);
    }

    /// The part of an account on the board, with the tags that it is known to have.
    pub open spec fn prepared(self, id: Seq<char>) -> AccountBoardStateView {
        let board = board_or_new(self.kanban.board(id), self.configured_columns(id));
        if self.tags.by_account@.contains_key(id) {
            AccountBoardStateView { tags: self.tags.by_account@[id].deep_view(), ..board }
        } else {
            board
        }
    }

    /// How often the shared columns are outdated when the part of an account gets ready.
    pub open spec fn preparing_changes(self, id: Seq<char>) -> nat {
        let board = board_or_new(self.kanban.board(id), self.configured_columns(id));
        (if self.kanban.board(id) is None {
            1nat
        } else {
            0nat
        }) + (if self.prepared(id).tags != board.tags {
            1nat
        } else {
            0nat
        })
    }

    /// How often the shared columns are outdated when the parts of several accounts get
    /// ready.
    pub open spec fn all_preparing_changes(self, ids: Seq<Seq<char>>) -> nat
        decreases ids.len(),
    {
        if ids.len() == 0 {
            0
        } else {
            self.all_preparing_changes(ids.drop_last()) + (if ids.drop_last().contains(ids.last()) {
                0nat
            } else {
                self.preparing_changes(ids.last())
            })
        }
    }

    /// The accounts among `ids` whose tags have to be asked for.
    pub open spec fn tagless(self, ids: Seq<Seq<char>>) -> Seq<Seq<char>>
        decreases ids.len(),
    {
        if ids.len() == 0 {
            Seq::empty()
        } else {
            let front = self.tagless(ids.drop_last());
            if self.lacks_tags(ids.last()) && !front.contains(ids.last()) {
                front.push(ids.last())
            } else {
                front
            }
        }
    }

    /// The requests for tags of accounts.
    pub open spec fn tag_asks(ids: Seq<Seq<char>>) -> Seq<EffectView> {
        ids.map_values(|account_id: Seq<char>| EffectView::LoadTags { account_id })
    }

    /// What the board holds before columns of one name are brought together.
    pub open spec fn boards_prepared(self, after: AviaryApp, ids: Seq<Seq<char>>) -> bool {
        &&& forall|id: Seq<char>| #[trigger]
            after.kanban.board(id) == (if ids.contains(id) {
                Some(self.prepared(id))
            } else {
                self.kanban.board(id)
            })
        &&& after.kanban.outdated(self.kanban, self.all_preparing_changes(ids))
        &&& after.kanban.preview == self.kanban.preview
        &&& after.kanban.hovered_cards == self.kanban.hovered_cards
        &&& after.kanban.column_scrolls == self.kanban.column_scrolls
        &&& after.tags.loading.deep_view() == self.tags.loading.deep_view() + self.tagless(ids)
        &&& after.asked(self, Self::tag_asks(self.tagless(ids)))
        &&& after == (AviaryApp {
            kanban: after.kanban,
            tags: TagsState { loading: after.tags.loading, ..self.tags },
            effects: after.effects,
            ..self
        })
    }

    fn prepare_board(&mut self, account_id: &AccountId)
        ensures
            final(self).kanban.board(account_id.0@) == Some(old(self).prepared(account_id.0@)),
            final(self).kanban.same_elsewhere(old(self).kanban, account_id.0@),
            final(self).kanban.outdated(old(self).kanban, old(self).preparing_changes(account_id.0@)),
            final(self).kanban.preview == old(self).kanban.preview,
            final(self).kanban.hovered_cards == old(self).kanban.hovered_cards,
            final(self).kanban.column_scrolls == old(self).kanban.column_scrolls,
            if old(self).lacks_tags(account_id.0@) {
                &&& final(self).tags.loading.deep_view() == old(self).tags.loading.deep_view().push(account_id.0@)
                &&& final(self).asked(*old(self), seq![EffectView::LoadTags { account_id: account_id.0@ }])
            } else {
                &&& final(self).tags.loading == old(self).tags.loading
                &&& final(self).asked(*old(self), Seq::empty())
            },
            *final(self) == (AviaryApp {
                kanban: final(self).kanban,
                tags: TagsState { loading: final(self).tags.loading, ..old(self).tags },
                effects: final(self).effects,
                ..*old(self)
            }),
    {
        assert(self.effects.deep_view() =~= old(self).effects.deep_view() + Seq::<EffectView>::empty());
        let columns = self.settings.account_or_default(Some(account_id)).kanban_tag_columns;
        self.kanban.ensure_account(account_id, &columns);
        let known: Option<Vec<Tag>> = match self.tags.by_account.get(account_id) {
            Some(tags) => Some(clone_list(tags)),
            None => None,
        };
        reveal_with_fuel(crate::kanban::bumped, 3);
        match known {
            Some(tags) => {
                self.kanban.set_tags(account_id, tags);
            },
            None => {
                self.ensure_tags_loaded(account_id);
            },
        }
    }

    fn prepare_boards(&mut self, account_ids: &Vec<AccountId>)
        ensures
            old(self).boards_prepared(*final(self), account_ids.deep_view()),
    {
        let ghost start = *self;
        let ghost ids = account_ids.deep_view();
        let mut i: usize = 0;
        proof {
            assert(start.tags.loading.deep_view() =~= start.tags.loading.deep_view() + start.tagless(ids.take(0)));
            assert(self.effects.deep_view() =~= start.effects.deep_view() + Self::tag_asks(start.tagless(ids.take(0))));
            assert(start.boards_prepared(*self, ids.take(0)));
        }
        while i < account_ids.len()
            invariant
                i <= account_ids.len(),
                ids == account_ids.deep_view(),
                start.boards_prepared(*self, ids.take(i as int)),
            decreases account_ids.len() - i,
        {
            let ghost middle = *self;
            let ghost id = ids[i as int];
            assert(id == account_ids[i as int].0@);
            self.prepare_board(&account_ids[i]);
            proof {
                let front = ids.take(i as int);
                assert(ids.take(i + 1) =~= front.push(id));
                assert(ids.take(i + 1).drop_last() =~= front);
                lemma_prepared_twice(start, middle, front, id);
                lemma_outdated(
                    start.kanban,
                    middle.kanban,
                    self.kanban,
                    start.all_preparing_changes(front),
                    middle.preparing_changes(id),
                );
                assert forall|other: Seq<char>| #[trigger] self.kanban.board(other) == (if ids.take(i + 1).contains(
                    other,
                ) {
                    Some(start.prepared(other))
                } else {
                    start.kanban.board(other)
                }) by {
                    lemma_contains_push(front, id, other);
                    if other != id {
                        lemma_same_elsewhere(self.kanban, middle.kanban, id, other);
                        assert(middle.kanban.board(other) == (if front.contains(other) {
                            Some(start.prepared(other))
                        } else {
                            start.kanban.board(other)
                        }));
                    }
                }
                lemma_tagless(start, front, id);
                let before = start.tagless(front);
                let more = start.tagless(ids.take(i + 1));
                if middle.lacks_tags(id) {
                    assert(more =~= before.push(id));
                    assert(self.tags.loading.deep_view() =~= start.tags.loading.deep_view() + more);
                    AviaryApp::lemma_asked(
                        start,
                        middle,
                        *self,
                        Self::tag_asks(before),
                        seq![EffectView::LoadTags { account_id: id }],
                    );
                    assert(Self::tag_asks(before) + seq![EffectView::LoadTags { account_id: id }] =~= Self::tag_asks(
                        more,
                    ));
                } else {
                    assert(more =~= before);
                    AviaryApp::lemma_asked(start, middle, *self, Self::tag_asks(before), Seq::empty());
                    assert(Self::tag_asks(before) + Seq::<EffectView>::empty() =~= Self::tag_asks(more));
                }
            }
            i += 1;
        }
        assert(ids.take(ids.len() as int) =~= ids);
    }

    /// What the board holds once columns of one name are brought together.
    pub open spec fn boards_merged(self, after: AviaryApp) -> bool {
        let boards = self.kanban.accounts.entries.deep_view();
        let (merged, added) = boards_with_keys(boards, distinct(all_keys(boards)));
        &&& after.kanban.accounts.entries.deep_view() == merged
        &&& after.kanban.outdated(self.kanban, adding_names(boards, distinct(all_keys(boards))))
        &&& after.kanban.preview == self.kanban.preview
        &&& after.kanban.hovered_cards == self.kanban.hovered_cards
        &&& after.kanban.column_scrolls == self.kanban.column_scrolls
        &&& columns_kept(self.settings, after.settings, after.kanban, accounts_of(added))
        &&& after.asked(self, save_asks(accounts_of(added)) + pair_asks(added))
        &&& after == (AviaryApp {
            settings: after.settings,
            kanban: after.kanban,
            effects: after.effects,
            ..self
        })
    }

    fn merge_boards(&mut self)
        ensures
            old(self).boards_merged(*final(self)),
    {
        let added = self.kanban.merge_matching_columns();
        self.keep_and_load(added);
    }

    /// The requests for columns of `ids` that have yet to be loaded, each account once.
    pub open spec fn pending_asks(self, ids: Seq<Seq<char>>) -> Seq<EffectView>
        decreases ids.len(),
    {
        if ids.len() == 0 {
            Seq::empty()
        } else {
            self.pending_asks(ids.drop_last()) + (if ids.drop_last().contains(ids.last()) {
                Seq::empty()
            } else {
                self.account_asks(ids.last())
            })
        }
    }

    /// The requests for columns of an account that have yet to be loaded.
    pub open spec fn account_asks(self, id: Seq<char>) -> Seq<EffectView> {
        match self.kanban.board(id) {
            Some(board) => listing_asks(id, pending_tags(board.columns)),
            None => Seq::empty(),
        }
    }

    /// How many accounts have columns that have yet to be loaded.
    pub open spec fn loading_changes(self, ids: Seq<Seq<char>>) -> nat
        decreases ids.len(),
    {
        if ids.len() == 0 {
            0
        } else {
            self.loading_changes(ids.drop_last()) + (if !ids.drop_last().contains(ids.last()) && self.account_asks(
                ids.last(),
            ).len() > 0 {
                1nat
            } else {
                0nat
            })
        }
    }

    /// What the board holds once all columns are loaded or being loaded.
    pub open spec fn boards_loading(self, after: AviaryApp, ids: Seq<Seq<char>>) -> bool {
        &&& forall|id: Seq<char>| #[trigger]
            after.kanban.board(id) == (match self.kanban.board(id) {
                Some(board) if ids.contains(id) => Some(board_loading(board)),
                other => other,
            })
        &&& after.kanban.outdated(self.kanban, self.loading_changes(ids))
        &&& after.kanban.preview == self.kanban.preview
        &&& after.kanban.hovered_cards == self.kanban.hovered_cards
        &&& after.kanban.column_scrolls == self.kanban.column_scrolls
        &&& after.asked(self, self.pending_asks(ids))
        &&& after == (AviaryApp { kanban: after.kanban, effects: after.effects, ..self })
    }

    fn load_account_columns(&mut self, account_id: &AccountId)
        ensures
            final(self).kanban.board(account_id.0@) == (match old(self).kanban.board(account_id.0@) {
                Some(board) => Some(board_loading(board)),
                None => None,
            }),
            final(self).kanban.same_elsewhere(old(self).kanban, account_id.0@),
            final(self).kanban.outdated(
                old(self).kanban,
                if old(self).account_asks(account_id.0@).len() > 0 {
                    1
                } else {
                    0
                },
            ),
            final(self).kanban.preview == old(self).kanban.preview,
            final(self).kanban.hovered_cards == old(self).kanban.hovered_cards,
            final(self).kanban.column_scrolls == old(self).kanban.column_scrolls,
            final(self).asked(*old(self), old(self).account_asks(account_id.0@)),
            *final(self) == (AviaryApp { kanban: final(self).kanban, effects: final(self).effects, ..*old(self) }),
    {
        let ghost start = *self;
        reveal_with_fuel(crate::kanban::bumped, 2);
        let ghost id = account_id.0@;
        assert(self.effects.deep_view() =~= start.effects.deep_view() + Seq::<EffectView>::empty());
        let pending: Vec<String> = match self.kanban.account(account_id) {
            Some(board) => collect_pending(&board.columns),
            None => {
                return;
            },
        };
        let ghost board = start.kanban.accounts@[id].deep_view();
        assert(pending.deep_view() == pending_tags(board.columns));
        assert(pending.deep_view().len() == pending.len());
        if pending.len() == 0 {
            proof {
                assert(pending.deep_view() =~= Seq::empty());
                assert(board_loading(board).columns =~= board.columns);
                assert(self.effects.deep_view() =~= start.effects.deep_view() + start.account_asks(id));
            }
            return;
        }
        if let Some(part) = self.kanban.account_mut(account_id) {
            mark_loading(&mut part.columns, &pending);
        }
        proof {
            assert(self.kanban.accounts@.remove(id) =~= start.kanban.accounts@.remove(id));
            assert(self.kanban.board(id)->0 =~= board_loading(board));
        }
        let ghost marked = *self;
        self.ask_columns(account_id, &pending);
        proof {
            AviaryApp::lemma_asked(
                start,
                marked,
                *self,
                Seq::empty(),
                listing_asks(id, pending.deep_view()),
            );
            assert(Seq::<EffectView>::empty() + listing_asks(id, pending.deep_view())
                =~= start.account_asks(id));
        }
    }

    fn load_boards(&mut self, account_ids: &Vec<AccountId>)
        ensures
            old(self).boards_loading(*final(self), account_ids.deep_view()),
    {
        let ghost start = *self;
        let ghost ids = account_ids.deep_view();
        let mut i: usize = 0;
        assert(self.effects.deep_view() =~= start.effects.deep_view() + start.pending_asks(ids.take(0)));
        while i < account_ids.len()
            invariant
                i <= account_ids.len(),
                ids == account_ids.deep_view(),
                start.boards_loading(*self, ids.take(i as int)),
            decreases account_ids.len() - i,
        {
            let ghost middle = *self;
            let ghost id = ids[i as int];
            let ghost front = ids.take(i as int);
            assert(id == account_ids[i as int].0@);
            self.load_account_columns(&account_ids[i]);
            proof {
                assert(ids.take(i + 1) =~= front.push(id));
                assert(ids.take(i + 1).drop_last() =~= front);
                assert(middle.kanban.board(id) == (match start.kanban.board(id) {
                    Some(board) if front.contains(id) => Some(board_loading(board)),
                    other => other,
                }));
                if start.kanban.board(id) is Some {
                    lemma_loading_settles(start.kanban.board(id)->0);
                }
                assert forall|other: Seq<char>| #[trigger] self.kanban.board(other) == (match start.kanban.board(
                    other,
                ) {
                    Some(board) if ids.take(i + 1).contains(other) => Some(board_loading(board)),
                    other => other,
                }) by {
                    lemma_contains_push(front, id, other);
                    if other != id {
                        lemma_same_elsewhere(self.kanban, middle.kanban, id, other);
                        assert(middle.kanban.board(other) == (match start.kanban.board(other) {
                            Some(board) if front.contains(other) => Some(board_loading(board)),
                            other => other,
                        }));
                    }
                }
                let asks = middle.account_asks(id);
                AviaryApp::lemma_asked(start, middle, *self, start.pending_asks(front), asks);
                assert(asks =~= (if front.contains(id) {
                    Seq::empty()
                } else {
                    start.account_asks(id)
                }));
                lemma_outdated(
                    start.kanban,
                    middle.kanban,
                    self.kanban,
                    start.loading_changes(front),
                    if asks.len() > 0 {
                        1
                    } else {
                        0
                    },
                );
            }
            i += 1;
        }
        assert(ids.take(ids.len() as int) =~= ids);
    }

    fn ordered_ids(&self) -> (ids: Vec<AccountId>)
        ensures
            ids.deep_view() == self.ordered().map_values(|account: AccountView| account.id),
    {
        let accounts = self.ordered_accounts();
        let ghost all = accounts.deep_view();
        let mut ids: Vec<AccountId> = Vec::new();
        let mut i: usize = 0;
        while i < accounts.len()
            invariant
                i <= accounts.len(),
                all == accounts.deep_view(),
                ids.len() == i,
                forall|j: int| 0 <= j < i ==> (#[trigger] ids[j]).0@ == all[j].id,
            decreases accounts.len() - i,
        {
            assert(all[i as int] == accounts[i as int].deep_view());
            ids.push(accounts[i].id.clone());
            i += 1;
        }
        assert(ids.deep_view() =~= all.map_values(|account: AccountView| account.id));
        ids
    }

    /// The board is ready: every account has its part, tags and columns of one name are
    /// together, all columns are loaded or being loaded, and a scroll position is kept
    /// for each column.
    pub open spec fn kanban_ready(self, prepared: AviaryApp, merged: AviaryApp, loading: AviaryApp, after: AviaryApp) -> bool {
        let ids = self.ordered().map_values(|account: AccountView| account.id);
        &&& self.boards_prepared(prepared, ids)
        &&& prepared.boards_merged(merged)
        &&& merged.boards_loading(loading, ids)
        &&& forall|key: Seq<char>|
            #![trigger after.kanban.column_scrolls.deep_view().contains(key)]
            after.kanban.column_scrolls.deep_view().contains(key) <==> all_keys(
                loading.kanban.accounts.entries.deep_view(),
            ).contains(key)
        &&& after == (AviaryApp {
            kanban: BoardState { column_scrolls: after.kanban.column_scrolls, ..loading.kanban },
            ..loading
        })
    }

    /// Makes the board ready to be shown.
    pub fn ensure_kanban_loaded(&mut self)
        ensures
            exists|prepared: AviaryApp, merged: AviaryApp, loading: AviaryApp| #[trigger]
                old(self).kanban_ready(prepared, merged, loading, *final(self)),
    {
        let ids = self.ordered_ids();
        self.prepare_boards(&ids);
        let ghost prepared = *self;
        self.merge_boards();
        let ghost merged = *self;
        self.load_boards(&ids);
        let ghost loading = *self;
        self.kanban.sync_column_scrolls();
        assert(old(self).kanban_ready(prepared, merged, loading, *self));
    }

    /// Whether the message of the drawer has to be opened: it is not the one that the
    /// reader shows or waits for.
    pub open spec fn preview_unopened(self) -> bool {
        match self.kanban.preview {
            Some(target) => !(self.mailbox.viewer.active_tab is None && self.mailbox.viewer.selected_id.deep_view() == Some(
                target.1@,
            ) && (match self.mailbox.viewer.selected {
                Some(message) => message.header.deep_view().reference() == (MessageRefView {
                    account_id: target.0.0@,
                    id: target.1@,
                }),
                None => true,
            })),
            None => false,
        }
    }

    /// Opens the message of the drawer where the reader shows another one.
    pub fn open_kanban_preview(&mut self)
        ensures
            final(self).asked(
                *old(self),
                if old(self).preview_unopened() {
                    let target = old(self).kanban.preview->0;
                    seq![EffectView::OpenMessage { account_id: target.0.0@, id: target.1@ }]
                } else {
                    Seq::empty()
                },
            ),
            *final(self) == (AviaryApp { effects: final(self).effects, ..*old(self) }),
    {
        assert(self.effects.deep_view() =~= old(self).effects.deep_view() + Seq::<EffectView>::empty());
        let target: (AccountId, String) = match &self.kanban.preview {
            Some(target) => (target.0.clone(), target.1.clone()),
            None => {
                return;
            },
        };
        let shown = match &self.mailbox.viewer.selected {
            Some(message) => message.header.account_id == target.0 && message.header.id == target.1,
            None => true,
        };
        let requested = self.mailbox.viewer.active_tab.is_none() && is_text(
            &self.mailbox.viewer.selected_id,
            &target.1,
        ) && shown;
        if !requested {
            self.send(Effect::OpenMessage { account_id: target.0, id: target.1 });
        }
    }

    /// Closes the drawer.
    pub fn close_kanban_preview(&mut self)
        ensures
            final(self).asked(*old(self), seq![EffectView::CancelReader]),
            *final(self) == (AviaryApp {
                kanban: BoardState { preview: None, ..old(self).kanban },
                effects: final(self).effects,
                ..*old(self)
            }),
    {
        self.kanban.preview = None;
        self.send(Effect::CancelReader);
    }

    /// A click on a card: a double click opens the message in a tab, and a single one in
    /// the drawer.
    pub fn click_kanban_card(&mut self, reference: MessageRef, clicks: usize)
        ensures
            if clicks >= 2 {
                &&& final(self).kanban == old(self).kanban
                &&& final(self).asked(*old(self), seq![EffectView::OpenInTab { reference: reference.deep_view() }])
            } else {
                &&& final(self).kanban.preview.deep_view() == Some((reference.account_id.0@, reference.id@))
                &&& final(self).kanban == (BoardState { preview: final(self).kanban.preview, ..old(self).kanban })
                &&& final(self).asked(
                    *old(self),
                    seq![EffectView::OpenMessage { account_id: reference.account_id.0@, id: reference.id@ }],
                )
            },
            *final(self) == (AviaryApp { kanban: final(self).kanban, effects: final(self).effects, ..*old(self) }),
    {
        if clicks >= 2 {
            self.send(Effect::OpenInTab { reference });
            return;
        }
        self.kanban.preview = Some((reference.account_id.clone(), reference.id.clone()));
        self.send(Effect::OpenMessage { account_id: reference.account_id, id: reference.id });
    }

    /// Drops a card on a column: it moves there at once, in the column and in the tags of
    /// its message. A column without a tag of its account does not take it.
    pub fn drop_kanban_card(&mut self, targets: &Vec<MergedTagTarget>, drag: &CardDrag)
        ensures
            ({
                let card = drag.deep_view();
                match drop_tag(targets.deep_view(), card) {
                    None => *final(self) == *old(self),
                    Some(tag_id) => {
                        &&& final(self).kanban.board(card.account_id) == (match old(self).kanban.board(
                            card.account_id,
                        ) {
                            Some(board) => Some(
                                AccountBoardStateView {
                                    columns: put_into(
                                        taken_from(board.columns, card.source_tag_id, card.message.id),
                                        tag_id,
                                        card.message,
                                    ),
                                    ..board
                                },
                            ),
                            None => None,
                        })
                        &&& final(self).kanban.same_elsewhere(old(self).kanban, card.account_id)
                        &&& final(self).kanban.invalidated(old(self).kanban)
                        &&& final(self).kanban.preview == old(self).kanban.preview
                        &&& final(self).kanban.hovered_cards == old(self).kanban.hovered_cards
                        &&& final(self).kanban.column_scrolls == old(self).kanban.column_scrolls
                        &&& final(self).asked(
                            *old(self),
                            seq![
                                EffectView::MoveCard {
                                    account_id: card.account_id,
                                    card: card.message,
                                    from_tag: card.source_tag_id,
                                    to_tag: tag_id,
                                },
                            ],
                        )
                        &&& *final(self) == (AviaryApp {
                            kanban: final(self).kanban,
                            effects: final(self).effects,
                            ..*old(self)
                        })
                    },
                }
            }),
    {
        let ghost all = targets.deep_view();
        let ghost id = drag.account_id.0@;
        proof {
            lemma_first_index(all, target_of(id));
        }
        let found = position_where(
            targets,
            |target: &MergedTagTarget| -> (same: bool)
                ensures
                    same == (target.deep_view().account_id == id)
                { target.account_id == drag.account_id },
            Ghost(target_of(id)),
        );
        let tag_id: String = match found {
            Some(i) => {
                assert(all[i as int] == targets[i as int].deep_view());
                targets[i].tag_id.clone()
            },
            None => {
                return;
            },
        };
        if drag.source_tag_id == tag_id {
            return;
        }
        let ghost before = self.kanban;
        if let Some(board) = self.kanban.account_mut(&drag.account_id) {
            take_from(&mut board.columns, &drag.source_tag_id, &drag.message.id);
            put_at_top(&mut board.columns, &tag_id, drag.message.clone());
        }
        assert(self.kanban.accounts@.remove(id) =~= before.accounts@.remove(id));
        self.send(
            Effect::MoveCard {
                account_id: drag.account_id.clone(),
                card: drag.message.clone(),
                from_tag: drag.source_tag_id.clone(),
                to_tag: tag_id,
            },
        );
    }

    /// Makes a tag of the name that was typed in every account; reports whether there was
    /// a name.
    pub fn create_merged_tag(&mut self, typed: &str) -> (done: bool)
        ensures
            done == (trimmed(typed@).len() > 0),
            final(self).asked(
                *old(self),
                if done {
                    old(self).ordered().map_values(
                        |account: AccountView|
                            EffectView::CreateTag { account_id: account.id, name: trimmed(typed@) },
                    )
                } else {
                    Seq::empty()
                },
            ),
            *final(self) == (AviaryApp { effects: final(self).effects, ..*old(self) }),
    {
        let ghost start = *self;
        assert(self.effects.deep_view() =~= start.effects.deep_view() + Seq::<EffectView>::empty());
        let name = trim(typed);
        if name.as_str().is_empty() {
            return false;
        }
        let accounts = self.ordered_accounts();
        let ghost all = accounts.deep_view();
        let ghost ask = |account: AccountView| EffectView::CreateTag { account_id: account.id, name: trimmed(typed@) };
        let mut i: usize = 0;
        assert(self.effects.deep_view() =~= start.effects.deep_view() + all.take(0).map_values(ask));
        while i < accounts.len()
            invariant
                i <= accounts.len(),
                all == accounts.deep_view(),
                name@ == trimmed(typed@),
                ask == (|account: AccountView|
                    EffectView::CreateTag { account_id: account.id, name: trimmed(typed@) }),
                self.asked(start, all.take(i as int).map_values(ask)),
                *self == (AviaryApp { effects: self.effects, ..start }),
            decreases accounts.len() - i,
        {
            let ghost middle = *self;
            assert(all[i as int] == accounts[i as int].deep_view());
            self.send(Effect::CreateTag { account_id: accounts[i].id.clone(), name: name.clone() });
            proof {
                let before = all.take(i as int).map_values(ask);
                AviaryApp::lemma_asked(start, middle, *self, before, seq![ask(all[i as int])]);
                assert(before + seq![ask(all[i as int])] =~= all.take(i + 1).map_values(ask));
            }
            i += 1;
        }
        assert(all.take(all.len() as int) =~= all);
        true
    }

    /// Gives the tags behind a column the name that was typed; reports whether there was
    /// one.
    pub fn rename_merged_tag(&mut self, targets: &Vec<MergedTagTarget>, typed: &str) -> (done: bool)
        ensures
            done == (trimmed(typed@).len() > 0),
            final(self).asked(
                *old(self),
                if done {
                    targets.deep_view().map_values(
                        |target: MergedTagTargetView|
                            EffectView::RenameTag {
                                account_id: target.account_id,
                                tag_id: target.tag_id,
                                new_name: trimmed(typed@),
                            },
                    )
                } else {
                    Seq::empty()
                },
            ),
            *final(self) == (AviaryApp { effects: final(self).effects, ..*old(self) }),
    {
        let ghost start = *self;
        assert(self.effects.deep_view() =~= start.effects.deep_view() + Seq::<EffectView>::empty());
        let new_name = trim(typed);
        if new_name.as_str().is_empty() {
            return false;
        }
        let ghost all = targets.deep_view();
        let ghost ask = |target: MergedTagTargetView|
            EffectView::RenameTag {
                account_id: target.account_id,
                tag_id: target.tag_id,
                new_name: trimmed(typed@),
            };
        let mut i: usize = 0;
        assert(self.effects.deep_view() =~= start.effects.deep_view() + all.take(0).map_values(ask));
        while i < targets.len()
            invariant
                i <= targets.len(),
                all == targets.deep_view(),
                new_name@ == trimmed(typed@),
                ask == (|target: MergedTagTargetView|
                    EffectView::RenameTag {
                        account_id: target.account_id,
                        tag_id: target.tag_id,
                        new_name: trimmed(typed@),
                    }),
                self.asked(start, all.take(i as int).map_values(ask)),
                *self == (AviaryApp { effects: self.effects, ..start }),
            decreases targets.len() - i,
        {
            let ghost middle = *self;
            assert(all[i as int] == targets[i as int].deep_view());
            self.send(
                Effect::RenameTag {
                    account_id: targets[i].account_id.clone(),
                    tag_id: targets[i].tag_id.clone(),
                    new_name: new_name.clone(),
                },
            );
            proof {
                let before = all.take(i as int).map_values(ask);
                AviaryApp::lemma_asked(start, middle, *self, before, seq![ask(all[i as int])]);
                assert(before + seq![ask(all[i as int])] =~= all.take(i + 1).map_values(ask));
            }
            i += 1;
        }
        assert(all.take(all.len() as int) =~= all);
        true
    }

    /// Deletes the tags behind a column, after the delay in which this can be undone.
    pub fn delete_merged_tag(&mut self, targets: &Vec<MergedTagTarget>)
        ensures
            final(self).asked(
                *old(self),
                seq![
                    EffectView::DeleteTags {
                        targets: targets.deep_view(),
                        delay_secs: old(self).settings.global.action_delay(),
                    },
                ],
            ),
            *final(self) == (AviaryApp { effects: final(self).effects, ..*old(self) }),
    {
        let delay_secs: u32 = self.settings.global.effective_action_delay_secs();
        self.send(Effect::DeleteTags { targets: clone_list(targets), delay_secs });
    }

    /// What the board shows.
    pub fn kanban_board_body(&self, columns: &Vec<MergedColumn>) -> (body: BoardBody)
        ensures
            body == (if self.accounts.len() == 0 {
                BoardBody::AccountRequired
            } else if columns.len() == 0 {
                BoardBody::GetStarted
            } else {
                BoardBody::Columns
            }),
    {
        if self.accounts.len() == 0 {
            BoardBody::AccountRequired
        } else if columns.len() == 0 {
            BoardBody::GetStarted
        } else {
            BoardBody::Columns
        }
    }

    /// An account in the legend of the board.
    pub open spec fn legend_entry(self, account: AccountView) -> LegendEntryView {
        LegendEntryView {
            label: self.title_of(account),
            color_override: self.settings.account_view(account.id).color_override,
        }
    }

    /// The list beside the board.
    pub fn kanban_sidebar(&self, columns: &Vec<MergedColumn>) -> (sidebar: KanbanSidebar)
        ensures
            sidebar.deep_view() == (KanbanSidebarView {
                account_count: self.ordered().len() as usize,
                columns: columns.deep_view().map_values(sidebar_column()),
                get_started: columns.len() == 0,
                legend: self.ordered().map_values(|account: AccountView| self.legend_entry(account)),
            }),
    {
        let accounts = self.ordered_accounts();
        let ghost all = accounts.deep_view();
        assert(all.len() == accounts.len());
        let mut legend: Vec<LegendEntry> = Vec::new();
        let mut i: usize = 0;
        while i < accounts.len()
            invariant
                i <= accounts.len(),
                all == accounts.deep_view(),
                legend.len() == i,
                forall|j: int| 0 <= j < i ==> (#[trigger] legend[j]).deep_view() == self.legend_entry(all[j]),
            decreases accounts.len() - i,
        {
            assert(all[i as int] == accounts[i as int].deep_view());
            let color_override = match self.settings.accounts.get(&accounts[i].id) {
                Some(settings) => settings.color_override,
                None => None,
            };
            legend.push(LegendEntry { label: self.account_label(&accounts[i]), color_override });
            i += 1;
        }
        let ghost merged = columns.deep_view();
        let mut shown: Vec<SidebarColumn> = Vec::new();
        let mut k: usize = 0;
        while k < columns.len()
            invariant
                k <= columns.len(),
                merged == columns.deep_view(),
                shown.len() == k,
                forall|j: int| 0 <= j < k ==> (#[trigger] shown[j]).deep_view() == sidebar_column()(merged[j]),
            decreases columns.len() - k,
        {
            assert(merged[k as int] == columns[k as int].deep_view());
            assert(columns[k as int].targets.deep_view().len() == columns[k as int].targets.len());
            assert(columns[k as int].cards.deep_view().len() == columns[k as int].cards.len());
            shown.push(
                SidebarColumn {
                    title: columns[k].title.clone(),
                    accounts: columns[k].targets.len(),
                    cards: columns[k].cards.len(),
                },
            );
            k += 1;
        }
        let sidebar = KanbanSidebar {
            account_count: accounts.len(),
            columns: shown,
            get_started: columns.len() == 0,
            legend,
        };
        proof {
            assert(sidebar.columns.deep_view() =~= merged.map_values(sidebar_column()));
            assert(sidebar.legend.deep_view() =~= self.ordered().map_values(
                |account: AccountView| self.legend_entry(account),
            ));
        }
        sidebar
    }

    /// A card as it is shown.
    pub fn kanban_card(&self, message: &MessageHeader) -> (card: CardFace)
        ensures
            card.deep_view() == (CardFaceView {
                subject: subject_label(message.subject@),
                from: message.from@,
                received: message.received,
                color_override: self.settings.account_view(message.account_id.0@).color_override,
            }),
    {
        let color_override = match self.settings.accounts.get(&message.account_id) {
            Some(settings) => settings.color_override,
            None => None,
        };
        CardFace {
            subject: label_of_subject(&message.subject),
            from: message.from.clone(),
            received: message.received,
            color_override,
        }
    }
}

proof fn lemma_same_elsewhere(after: BoardState, before: BoardState, id: Seq<char>, other: Seq<char>)
    requires
        after.same_elsewhere(before, id),
        other != id,
    ensures
        after.board(other) == before.board(other),
{
    assert(after.accounts@.remove(id).contains_key(other) == before.accounts@.remove(id).contains_key(other));
    if before.accounts@.contains_key(other) {
        assert(after.accounts@.remove(id)[other] == before.accounts@.remove(id)[other]);
    }
}

proof fn lemma_prepared_twice(start: AviaryApp, middle: AviaryApp, front: Seq<Seq<char>>, id: Seq<char>)
    requires
        start.boards_prepared(middle, front),
    ensures
        middle.prepared(id) == start.prepared(id),
        middle.preparing_changes(id) == (if front.contains(id) {
            0
        } else {
            start.preparing_changes(id)
        }),
{
    assert(middle.kanban.board(id) == (if front.contains(id) {
        Some(start.prepared(id))
    } else {
        start.kanban.board(id)
    }));
}

proof fn lemma_tagless(start: AviaryApp, front: Seq<Seq<char>>, id: Seq<char>)
    ensures
        start.tagless(front.push(id)) == (if start.lacks_tags(id) && !start.tagless(front).contains(id) {
            start.tagless(front).push(id)
        } else {
            start.tagless(front)
        }),
        (start.tags.loading.deep_view() + start.tagless(front)).contains(id) <==> start.tags.loading.deep_view().contains(
            id,
        ) || start.tagless(front).contains(id),
{
    assert(front.push(id).drop_last() =~= front);
    let a = start.tags.loading.deep_view();
    let b = start.tagless(front);
    if a.contains(id) {
        let j = choose|j: int| 0 <= j < a.len() && a[j] == id;
        assert((a + b)[j] == id);
    }
    if b.contains(id) {
        let j = choose|j: int| 0 <= j < b.len() && b[j] == id;
        assert((a + b)[a.len() + j] == id);
    }
    if (a + b).contains(id) {
        let j = choose|j: int| 0 <= j < (a + b).len() && (a + b)[j] == id;
        if j < a.len() {
            assert(a[j] == id);
        } else {
            assert(b[j - a.len()] == id);
        }
    }
}

/// Once all columns are loaded or being loaded, nothing more has to be asked for.
pub proof fn lemma_loading_settles(board: AccountBoardStateView)
    ensures
        pending_tags(board_loading(board).columns) == Seq::<Seq<char>>::empty(),
        board_loading(board_loading(board)) == board_loading(board),
{
    let tags = pending_tags(board.columns);
    let after = board_loading(board).columns;
    assert forall|i: int| 0 <= i < after.len() implies !unloaded()(#[trigger] after[i]) by {
        let column = board.columns[i];
        if unloaded()(column) {
            crate::navigation::lemma_filter_keeps(board.columns, unloaded(), column);
            let waiting = board.columns.filter(unloaded());
            let j = choose|j: int| 0 <= j < waiting.len() && waiting[j] == column;
            assert(tags[j] == column.tag_id);
        }
    }
    lemma_filter_none(after, unloaded());
    assert(pending_tags(after) =~= Seq::empty());
    assert(board_loading(board_loading(board)).columns =~= after);
}

proof fn lemma_filter_none<V>(s: Seq<V>, p: spec_fn(V) -> bool)
    requires
        forall|i: int| 0 <= i < s.len() ==> !p(#[trigger] s[i]),
    ensures
        s.filter(p) == Seq::<V>::empty(),
    decreases s.len(),
{
    reveal(Seq::filter);
    if s.len() > 0 {
        let init = s.drop_last();
        assert forall|i: int| 0 <= i < init.len() implies !p(#[trigger] init[i]) by {
            assert(s[i] == init[i]);
        }
        lemma_filter_none(init, p);
        assert(!p(s[s.len() - 1]));
    }
}

/// A card that is dropped where it was stays, and so does one that no tag of the column
/// takes.
pub proof fn law_cards_stay(targets: Seq<MergedTagTargetView>, drag: CardDragView)
    ensures
        drop_tag(targets, drag) != Some(drag.source_tag_id),
        !targets.any(target_of(drag.account_id)) ==> drop_tag(targets, drag) is None,
{
    lemma_first_index(targets, target_of(drag.account_id));
}

/// A card that moved stands in its new column and no longer in the old one.
pub proof fn law_cards_move(
    columns: Seq<TagColumnView>,
    from: int,
    to: int,
    message: MessageHeaderView,
)
    requires
        0 <= from < columns.len(),
        0 <= to < columns.len(),
        columns[from].tag_id != columns[to].tag_id,
        first_index(columns, crate::kanban::column_of(columns[from].tag_id)) == Some(from),
        first_index(columns, crate::kanban::column_of(columns[to].tag_id)) == Some(to),
    ensures
        ({
            let after = put_into(
                taken_from(columns, columns[from].tag_id, message.id),
                columns[to].tag_id,
                message,
            );
            &&& after[to].messages[0] == message
            &&& forall|i: int| 0 <= i < after[from].messages.len() ==> (#[trigger] after[from].messages[i]).id != message.id
        }),
{
    let without = taken_from(columns, columns[from].tag_id, message.id);
    let test = crate::kanban::column_of(columns[to].tag_id);
    lemma_first_index(columns, test);
    assert(without[to] == columns[to]);
    assert forall|j: int| 0 <= j < to implies !test(#[trigger] without[j]) by {
        assert(!test(columns[j]));
    }
    crate::lists::lemma_first_index_is(without, test, to);
    let kept = columns[from].messages.filter(crate::headers::other_message_id(message.id));
    crate::navigation::lemma_filter_accepts(columns[from].messages, crate::headers::other_message_id(message.id));
    assert forall|i: int| 0 <= i < kept.len() implies (#[trigger] kept[i]).id != message.id by {
        assert(crate::headers::other_message_id(message.id)(kept[i]));
    }
}

} // verus!
