//! The kanban board: one column per tag name, shared by the accounts that have a
//! tag of that name.
use crate::account_map::AccountMap;
use crate::lists::{first_index, lemma_first_index, map_each, position_where, retain_where, take_list};
use crate::model::{
    clone_list, AccountId, MessageHeader, MessageHeaderView, MessageRef, MessageRefView, Tag, TagView,
};
use crate::text::{lowercase, text_eq, to_lowercase, trim, trimmed};
use vstd::prelude::*;
use vstd::string::*;

verus! {

/// Most messages that are asked for of a column.
pub const COLUMN_LIMIT: usize = 50;

/// The messages of one tag of one account.
#[derive(Debug, PartialEq, Eq)]
pub struct TagColumn {
    pub tag_id: String,
    pub messages: Vec<MessageHeader>,
    pub loaded: bool,
    pub loading: bool,
}

/// Mathematical form of [`TagColumn`].
#[verifier::ext_equal]
pub struct TagColumnView {
    pub tag_id: Seq<char>,
    pub messages: Seq<MessageHeaderView>,
    pub loaded: bool,
    pub loading: bool,
}

impl DeepView for TagColumn {
    type V = TagColumnView;

    open spec fn deep_view(&self) -> TagColumnView {
        TagColumnView {
            tag_id: self.tag_id.deep_view(),
            messages: self.messages.deep_view(),
            loaded: self.loaded,
            loading: self.loading,
        }
    }
}

impl Clone for TagColumn {
    fn clone(&self) -> (copy: Self)
        ensures
            copy.deep_view() == self.deep_view(),
    {
        TagColumn {
            tag_id: self.tag_id.clone(),
            messages: crate::model::clone_list(&self.messages),
            loaded: self.loaded,
            loading: self.loading,
        }
    }
}
/// The part of the board that belongs to one account.
#[derive(Debug, PartialEq, Eq)]
pub struct AccountBoardState {
    pub tags: Vec<Tag>,
    pub columns: Vec<TagColumn>,
}

/// Mathematical form of [`AccountBoardState`].
#[verifier::ext_equal]
pub struct AccountBoardStateView {
    pub tags: Seq<TagView>,
    pub columns: Seq<TagColumnView>,
}

impl DeepView for AccountBoardState {
    type V = AccountBoardStateView;

    open spec fn deep_view(&self) -> AccountBoardStateView {
        AccountBoardStateView {
            tags: self.tags.deep_view(),
            columns: self.columns.deep_view(),
        }
    }
}

impl Clone for AccountBoardState {
    fn clone(&self) -> (copy: Self)
        ensures
            copy.deep_view() == self.deep_view(),
    {
        AccountBoardState {
            tags: crate::model::clone_list(&self.tags),
            columns: crate::model::clone_list(&self.columns),
        }
    }
}
/// A card on its way to another column.
#[derive(Debug, PartialEq, Eq)]
pub struct CardDrag {
    pub account_id: AccountId,
    pub source_tag_id: String,
    pub message: MessageHeader,
}

/// Mathematical form of [`CardDrag`].
#[verifier::ext_equal]
pub struct CardDragView {
    pub account_id: Seq<char>,
    pub source_tag_id: Seq<char>,
    pub message: MessageHeaderView,
}

impl DeepView for CardDrag {
    type V = CardDragView;

    open spec fn deep_view(&self) -> CardDragView {
        CardDragView {
            account_id: self.account_id.deep_view(),
            source_tag_id: self.source_tag_id.deep_view(),
            message: self.message.deep_view(),
        }
    }
}

impl Clone for CardDrag {
    fn clone(&self) -> (copy: Self)
        ensures
            copy.deep_view() == self.deep_view(),
    {
        CardDrag {
            account_id: self.account_id.clone(),
            source_tag_id: self.source_tag_id.clone(),
            message: self.message.clone(),
        }
    }
}
/// A tag of an account that a shared column stands for.
#[derive(Debug, PartialEq, Eq)]
pub struct MergedTagTarget {
    pub account_id: AccountId,
    pub tag_id: String,
}

/// Mathematical form of [`MergedTagTarget`].
#[verifier::ext_equal]
pub struct MergedTagTargetView {
    pub account_id: Seq<char>,
    pub tag_id: Seq<char>,
}

impl DeepView for MergedTagTarget {
    type V = MergedTagTargetView;

    open spec fn deep_view(&self) -> MergedTagTargetView {
        MergedTagTargetView {
            account_id: self.account_id.deep_view(),
            tag_id: self.tag_id.deep_view(),
        }
    }
}

impl Clone for MergedTagTarget {
    fn clone(&self) -> (copy: Self)
        ensures
            copy.deep_view() == self.deep_view(),
    {
        MergedTagTarget {
            account_id: self.account_id.clone(),
            tag_id: self.tag_id.clone(),
        }
    }
}
/// A card of a shared column.
#[derive(Debug, PartialEq, Eq)]
pub struct MergedCard {
    pub source_tag_id: String,
    pub message: MessageHeader,
}

/// Mathematical form of [`MergedCard`].
#[verifier::ext_equal]
pub struct MergedCardView {
    pub source_tag_id: Seq<char>,
    pub message: MessageHeaderView,
}

impl DeepView for MergedCard {
    type V = MergedCardView;

    open spec fn deep_view(&self) -> MergedCardView {
        MergedCardView {
            source_tag_id: self.source_tag_id.deep_view(),
            message: self.message.deep_view(),
        }
    }
}

impl Clone for MergedCard {
    fn clone(&self) -> (copy: Self)
        ensures
            copy.deep_view() == self.deep_view(),
    {
        MergedCard {
            source_tag_id: self.source_tag_id.clone(),
            message: self.message.clone(),
        }
    }
}
/// A column shared by the tags of one name.
#[derive(Debug, PartialEq, Eq)]
pub struct MergedColumn {
    pub key: String,
    pub title: String,
    pub targets: Vec<MergedTagTarget>,
    pub cards: Vec<MergedCard>,
    pub loaded: bool,
}

/// Mathematical form of [`MergedColumn`].
#[verifier::ext_equal]
pub struct MergedColumnView {
    pub key: Seq<char>,
    pub title: Seq<char>,
    pub targets: Seq<MergedTagTargetView>,
    pub cards: Seq<MergedCardView>,
    pub loaded: bool,
}

impl DeepView for MergedColumn {
    type V = MergedColumnView;

    open spec fn deep_view(&self) -> MergedColumnView {
        MergedColumnView {
            key: self.key.deep_view(),
            title: self.title.deep_view(),
            targets: self.targets.deep_view(),
            cards: self.cards.deep_view(),
            loaded: self.loaded,
        }
    }
}

impl Clone for MergedColumn {
    fn clone(&self) -> (copy: Self)
        ensures
            copy.deep_view() == self.deep_view(),
    {
        MergedColumn {
            key: self.key.clone(),
            title: self.title.clone(),
            targets: crate::model::clone_list(&self.targets),
            cards: crate::model::clone_list(&self.cards),
            loaded: self.loaded,
        }
    }
}

/// What the shared columns were when they were last put together.
#[derive(Debug)]
pub struct MergedCache {
    pub revision: u64,
    pub order: Vec<AccountId>,
    pub columns: Vec<MergedColumn>,
}

/// The board of all accounts.
#[derive(Debug)]
pub struct BoardState {
    pub accounts: AccountMap<AccountBoardState>,
    /// Message displayed in the drawer as `(account, message)`.
    pub preview: Option<(AccountId, String)>,
    pub merged_revision: u64,
    pub merged_cache: Option<MergedCache>,
    /// Cards whose hover state is kept.
    pub hovered_cards: Vec<MessageRef>,
    /// Columns whose scroll position is kept.
    pub column_scrolls: Vec<String>,
}

impl Default for BoardState {
    fn default() -> (board: Self)
        ensures
            board.accounts@ == Map::<Seq<char>, AccountBoardState>::empty(),
            board.accounts.unique(),
            board.preview is None,
            board.merged_revision == 0,
            board.merged_cache is None,
            board.hovered_cards@ == Seq::<MessageRef>::empty(),
            board.column_scrolls@ == Seq::<String>::empty(),
    {
        BoardState {
            accounts: AccountMap::new(),
            preview: None,
            merged_revision: 0,
            merged_cache: None,
            hovered_cards: Vec::new(),
            column_scrolls: Vec::new(),
        }
    }
}

/// A revision after so many changes.
pub open spec fn bumped(revision: u64, times: nat) -> u64
    decreases times,
{
    if times == 0 {
        revision
    } else {
        let before = bumped(revision, (times - 1) as nat);
        if before == u64::MAX {
            0
        } else {
            (before + 1) as u64
        }
    }
}

/// Tag names are the same column when they differ in case or outer white space only.
pub open spec fn tag_key(name: Seq<char>) -> Seq<char> {
    lowercase(trimmed(name))
}

/// Key of the column that a tag name belongs to.
pub fn normalized_tag_name(name: &str) -> (key: String)
    ensures
        key@ == tag_key(name@),
{
    to_lowercase(&trim(name))
}

/// Whether a tag has the id `id`.
pub open spec fn tag_has_id(id: Seq<char>) -> spec_fn(TagView) -> bool {
    |tag: TagView| tag.id == id
}

/// Whether a column is the one of the tag `id`.
pub open spec fn column_of(id: Seq<char>) -> spec_fn(TagColumnView) -> bool {
    |column: TagColumnView| column.tag_id == id
}

/// Whether a column is one of another tag than `id`.
pub open spec fn column_of_other(id: Seq<char>) -> spec_fn(TagColumnView) -> bool {
    |column: TagColumnView| column.tag_id != id
}

/// Title of a column: the name of its tag, or the id of a tag that is not known.
pub open spec fn column_title(board: AccountBoardStateView, column: TagColumnView) -> Seq<char> {
    match first_index(board.tags, tag_has_id(column.tag_id)) {
        Some(i) => board.tags[i].display_name,
        None => column.tag_id,
    }
}

/// An empty column.
pub open spec fn empty_column(tag_id: Seq<char>, loading: bool) -> TagColumnView {
    TagColumnView { tag_id, messages: Seq::empty(), loaded: false, loading }
}

/// A board with the given columns and nothing in them.
pub open spec fn board_of_columns(columns: Seq<Seq<char>>) -> AccountBoardStateView {
    AccountBoardStateView {
        tags: Seq::empty(),
        columns: columns.map_values(|id: Seq<char>| empty_column(id, false)),
    }
}

/// Place of the tag with the id `id`.
pub(crate) fn tag_position(tags: &Vec<Tag>, id: &str) -> (found: Option<usize>)
    ensures
        match found {
            Some(i) => i < tags.len() && tags[i as int].deep_view().id == id@ && first_index(
                tags.deep_view(),
                tag_has_id(id@),
            ) == Some(i as int),
            None => first_index(tags.deep_view(), tag_has_id(id@)) is None,
        },
{
    let wanted = id.to_owned();
    position_where(
        tags,
        |tag: &Tag| -> (same: bool)
            ensures
                same == (tag.deep_view().id == id@)
            { tag.id == wanted },
        Ghost(tag_has_id(id@)),
    )
}

/// Place of the column of the tag `id`.
pub(crate) fn column_position(columns: &Vec<TagColumn>, id: &str) -> (found: Option<usize>)
    ensures
        match found {
            Some(i) => i < columns.len() && columns[i as int].deep_view().tag_id == id@ && first_index(
                columns.deep_view(),
                column_of(id@),
            ) == Some(i as int),
            None => first_index(columns.deep_view(), column_of(id@)) is None,
        },
{
    let wanted = id.to_owned();
    position_where(
        columns,
        |column: &TagColumn| -> (same: bool)
            ensures
                same == (column.deep_view().tag_id == id@)
            { column.tag_id == wanted },
        Ghost(column_of(id@)),
    )
}

/// Title of a column.
pub(crate) fn title_of_column(tags: &Vec<Tag>, tag_id: &String) -> (title: String)
    ensures
        title@ == match first_index(tags.deep_view(), tag_has_id(tag_id@)) {
            Some(i) => tags.deep_view()[i].display_name,
            None => tag_id@,
        },
{
    match tag_position(tags, tag_id) {
        Some(i) => {
            assert(tags.deep_view()[i as int] == tags[i as int].deep_view());
            tags[i].display_name.clone()
        },
        None => tag_id.clone(),
    }
}

impl AccountBoardStateView {
    /// The columns once one for the tag `tag_id` is there.
    pub open spec fn with_column(self, tag_id: Seq<char>) -> AccountBoardStateView {
        if self.columns.any(column_of(tag_id)) {
            self
        } else {
            AccountBoardStateView { columns: self.columns.push(empty_column(tag_id, false)), ..self }
        }
    }

    /// The columns once that of the tag `tag_id` is gone.
    pub open spec fn without_column(self, tag_id: Seq<char>) -> AccountBoardStateView {
        AccountBoardStateView { columns: self.columns.filter(column_of_other(tag_id)), ..self }
    }

    /// The columns once a tag has another id.
    pub open spec fn with_tag_id(self, old_id: Seq<char>, new_id: Seq<char>) -> AccountBoardStateView {
        AccountBoardStateView { columns: self.columns.map_values(renamed_column(old_id, new_id)), ..self }
    }

    /// The columns once the messages of a tag came in.
    pub open spec fn with_messages(self, tag_id: Seq<char>, messages: Seq<MessageHeaderView>) -> AccountBoardStateView {
        match first_index(self.columns, column_of(tag_id)) {
            Some(i) => AccountBoardStateView {
                columns: self.columns.update(
                    i,
                    TagColumnView { tag_id, messages, loaded: true, loading: false },
                ),
                ..self
            },
            None => self,
        }
    }

    /// The columns once one of them waits for its messages.
    pub open spec fn with_loading(self, tag_id: Seq<char>) -> AccountBoardStateView {
        match first_index(self.columns, column_of(tag_id)) {
            Some(i) => AccountBoardStateView {
                columns: self.columns.update(i, TagColumnView { loading: true, ..self.columns[i] }),
                ..self
            },
            None => self,
        }
    }

    /// The ids of the columns.
    pub open spec fn column_ids(self) -> Seq<Seq<char>> {
        self.columns.map_values(|column: TagColumnView| column.tag_id)
    }
}

/// A column once a tag has another id.
pub open spec fn renamed_column(old_id: Seq<char>, new_id: Seq<char>) -> spec_fn(TagColumnView) -> TagColumnView {
    |column: TagColumnView|
        if column.tag_id == old_id {
            TagColumnView { tag_id: new_id, ..column }
        } else {
            column
        }
}

impl BoardState {
    /// The part of the board that belongs to an account.
    pub open spec fn board(self, account: Seq<char>) -> Option<AccountBoardStateView> {
        if self.accounts@.contains_key(account) {
            Some(self.accounts@[account].deep_view())
        } else {
            None
        }
    }

    /// No part but that of an account differs.
    pub open spec fn same_elsewhere(self, other: BoardState, account: Seq<char>) -> bool {
        self.accounts@.remove(account) == other.accounts@.remove(account)
    }

    /// The shared columns are to be put together again.
    pub open spec fn invalidated(self, before: BoardState) -> bool {
        self.merged_cache is None && self.merged_revision == if before.merged_revision == u64::MAX {
            0
        } else {
            (before.merged_revision + 1) as u64
        }
    }

    /// Whether shared columns were outdated so many times since `before`.
    pub open spec fn outdated(self, before: BoardState, times: nat) -> bool {
        &&& self.merged_revision == bumped(before.merged_revision, times)
        &&& times == 0 ==> self.merged_cache == before.merged_cache
        &&& times > 0 ==> self.merged_cache is None
    }

    /// Whether some column holds the message.
    pub open spec fn shows_card(self, reference: MessageRefView) -> bool {
        exists|a: int, c: int, m: int|
            0 <= a < self.accounts.entries.len() && 0 <= c < self.accounts.entries[a].1.columns.len() && 0 <= m
                < self.accounts.entries[a].1.columns[c].messages.len()
                && #[trigger] self.accounts.entries[a].1.columns[c].messages[m].deep_view().reference() == reference
    }

    /// Whether a kept hover state belongs to a card of the board.
    pub open spec fn hover_is_shown(self) -> spec_fn(MessageRefView) -> bool {
        |reference: MessageRefView| self.shows_card(reference)
    }

    /// Lets the shared columns be put together again.
    pub fn invalidate_merged(&mut self)
        ensures
            final(self).invalidated(*old(self)),
            *final(self) == (BoardState {
                merged_cache: final(self).merged_cache,
                merged_revision: final(self).merged_revision,
                ..*old(self)
            }),
    {
        self.merged_revision = if self.merged_revision == u64::MAX { 0 } else { self.merged_revision + 1 };
        self.merged_cache = None;
    }

    /// Whether some column holds the message.
    fn holds_card(&self, reference: &MessageRef) -> (found: bool)
        ensures
            found == self.shows_card(reference.deep_view()),
    {
        let mut a: usize = 0;
        while a < self.accounts.entries.len()
            invariant
                a <= self.accounts.entries.len(),
                forall|i: int, c: int, m: int|
                    0 <= i < a && 0 <= c < self.accounts.entries[i].1.columns.len() && 0 <= m
                        < self.accounts.entries[i].1.columns[c].messages.len()
                        ==> #[trigger] self.accounts.entries[i].1.columns[c].messages[m].deep_view().reference()
                        != reference.deep_view(),
            decreases self.accounts.entries.len() - a,
        {
            let columns = &self.accounts.entries[a].1.columns;
            let mut c: usize = 0;
            while c < columns.len()
                invariant
                    a < self.accounts.entries.len(),
                    *columns == self.accounts.entries[a as int].1.columns,
                    c <= columns.len(),
                    forall|j: int, m: int|
                        0 <= j < c && 0 <= m < self.accounts.entries[a as int].1.columns[j].messages.len()
                            ==> #[trigger] self.accounts.entries[a as int].1.columns[j].messages[m].deep_view().reference()
                            != reference.deep_view(),
                decreases columns.len() - c,
            {
                let messages = &columns[c].messages;
                let mut m: usize = 0;
                while m < messages.len()
                    invariant
                        a < self.accounts.entries.len(),
                        *columns == self.accounts.entries[a as int].1.columns,
                        c < columns.len(),
                        *messages == columns[c as int].messages,
                        m <= messages.len(),
                        forall|k: int|
                            0 <= k < m ==> #[trigger] self.accounts.entries[a as int].1.columns[c as int].messages[k].deep_view().reference()
                                != reference.deep_view(),
                    decreases messages.len() - m,
                {
                    if messages[m].is(reference) {
                        assert(self.accounts.entries[a as int].1.columns[c as int].messages[m as int].deep_view().reference()
                            == reference.deep_view());
                        return true;
                    }
                    m += 1;
                }
                c += 1;
            }
            a += 1;
        }
        false
    }

    /// Forgets the hover state of cards that the board no longer shows.
    pub(crate) fn prune_card_motion(&mut self)
        ensures
            final(self).hovered_cards.deep_view() == old(self).hovered_cards.deep_view().filter(
                old(self).hover_is_shown(),
            ),
            *final(self) == (BoardState { hovered_cards: final(self).hovered_cards, ..*old(self) }),
            final(self).hover_is_shown() == old(self).hover_is_shown(),
    {
        let ghost before = *self;
        let taken = take_list(&mut self.hovered_cards);
        assert forall|reference: MessageRefView| self.shows_card(reference) == before.shows_card(reference) by {}
        assert(self.hover_is_shown() =~= before.hover_is_shown());
        let board: &BoardState = self;
        let kept = retain_where(
            taken,
            |reference: &MessageRef| -> (keep: bool)
                ensures
                    keep == board.shows_card(reference.deep_view())
                { board.holds_card(reference) },
            Ghost(self.hover_is_shown()),
        );
        self.hovered_cards = kept;
        assert forall|reference: MessageRefView| self.shows_card(reference) == before.shows_card(reference) by {}
        assert(self.hover_is_shown() =~= before.hover_is_shown());
    }

    fn account_from_columns(cols: &Vec<String>) -> (board: AccountBoardState)
        ensures
            board.deep_view() == board_of_columns(cols.deep_view()),
    {
        let mut columns: Vec<TagColumn> = Vec::new();
        let mut i: usize = 0;
        while i < cols.len()
            invariant
                i <= cols.len(),
                columns.len() == i,
                forall|j: int| 0 <= j < i ==> (#[trigger] columns[j]).deep_view() == empty_column(cols[j]@, false),
            decreases cols.len() - i,
        {
            let column = TagColumn { tag_id: cols[i].clone(), messages: Vec::new(), loaded: false, loading: false };
            assert(column.deep_view() =~= empty_column(cols[i as int]@, false));
            columns.push(column);
            i += 1;
        }
        let board = AccountBoardState { tags: Vec::new(), columns };
        assert(board.deep_view().columns =~= board_of_columns(cols.deep_view()).columns);
        assert(board.deep_view().tags =~= Seq::<TagView>::empty());
        board
    }

    /// Gives an account a part of the board, with the given columns, unless it has one.
    pub fn ensure_account(&mut self, account_id: &AccountId, cols: &Vec<String>)
        ensures
            old(self).accounts@.contains_key(account_id.0@) ==> *final(self) == *old(self),
            !old(self).accounts@.contains_key(account_id.0@) ==> final(self).board(account_id.0@) == Some(
                board_of_columns(cols.deep_view()),
            ) && final(self).same_elsewhere(*old(self), account_id.0@) && final(self).invalidated(*old(self)),
            *final(self) == (BoardState {
                accounts: final(self).accounts,
                merged_cache: final(self).merged_cache,
                merged_revision: final(self).merged_revision,
                ..*old(self)
            }),
    {
        if !self.accounts.contains_key(account_id) {
            self.accounts.insert(account_id.clone(), Self::account_from_columns(cols));
            self.invalidate_merged();
            assert(self.accounts@.remove(account_id.0@) =~= old(self).accounts@.remove(account_id.0@));
        }
    }

    /// Gives an account a new part of the board, with the given columns.
    pub fn reset_account(&mut self, account_id: &AccountId, cols: &Vec<String>)
        ensures
            final(self).board(account_id.0@) == Some(board_of_columns(cols.deep_view())),
            final(self).same_elsewhere(*old(self), account_id.0@),
            final(self).invalidated(*old(self)),
            final(self).hovered_cards.deep_view() == old(self).hovered_cards.deep_view().filter(
                final(self).hover_is_shown(),
            ),
            final(self).preview == old(self).preview,
            final(self).column_scrolls == old(self).column_scrolls,
    {
        self.accounts.insert(account_id.clone(), Self::account_from_columns(cols));
        self.invalidate_merged();
        assert(self.accounts@.remove(account_id.0@) =~= old(self).accounts@.remove(account_id.0@));
        self.prune_card_motion();
    }

    /// Takes an account off the board.
    pub fn remove_account(&mut self, account_id: &AccountId)
        ensures
            final(self).accounts@ == old(self).accounts@.remove(account_id.0@),
            final(self).invalidated(*old(self)),
            final(self).hovered_cards.deep_view() == old(self).hovered_cards.deep_view().filter(
                final(self).hover_is_shown(),
            ),
            match old(self).preview {
                Some(preview) => if preview.0.0@ == account_id.0@ {
                    final(self).preview is None
                } else {
                    final(self).preview == old(self).preview
                },
                None => final(self).preview is None,
            },
            final(self).column_scrolls == old(self).column_scrolls,
            old(self).accounts.unique() ==> final(self).accounts.unique(),
    {
        let _removed = self.accounts.remove(account_id);
        self.invalidate_merged();
        self.prune_card_motion();
        let ghost shown = self.hover_is_shown();
        let shows_account = match &self.preview {
            Some(preview) => preview.0 == *account_id,
            None => false,
        };
        if shows_account {
            let ghost before = *self;
            self.preview = None;
            assert forall|reference: MessageRefView| self.shows_card(reference) == before.shows_card(reference) by {}
            assert(self.hover_is_shown() =~= before.hover_is_shown());
        }
    }

    /// The part of the board that belongs to an account.
    pub fn account(&self, account_id: &AccountId) -> (board: Option<&AccountBoardState>)
        ensures
            match board {
                Some(board) => self.accounts@.contains_key(account_id.0@) && *board == self.accounts@[account_id.0@],
                None => !self.accounts@.contains_key(account_id.0@),
            },
            board.deep_view() == self.board(account_id.0@),
    {
        self.accounts.get(account_id)
    }

    /// The part of the board that belongs to an account, to be changed in place.
    pub fn account_mut(&mut self, account_id: &AccountId) -> (board: Option<&mut AccountBoardState>)
        ensures
            match board {
                Some(board) => old(self).accounts@.contains_key(account_id.0@) && *board == old(self).accounts@[account_id.0@] && final(self).accounts@ == old(self).accounts@.insert(
                    account_id.0@,
                    *final(board),
                ),
                None => !old(self).accounts@.contains_key(account_id.0@) && final(self).accounts == old(self).accounts,
            },
            final(self).invalidated(*old(self)),
            final(self).preview == old(self).preview,
            final(self).hovered_cards == old(self).hovered_cards,
            final(self).column_scrolls == old(self).column_scrolls,
            old(self).accounts.unique() ==> final(self).accounts.unique(),
    {
        self.invalidate_merged();
        self.accounts.get_mut(account_id)
    }

    /// The ids of an account's columns.
    pub fn column_ids(&self, account_id: &AccountId) -> (ids: Vec<String>)
        ensures
            ids.deep_view() == match self.board(account_id.0@) {
                Some(board) => board.column_ids(),
                None => Seq::empty(),
            },
    {
        let mut ids: Vec<String> = Vec::new();
        match self.accounts.get(account_id) {
            Some(board) => {
                let mut i: usize = 0;
                while i < board.columns.len()
                    invariant
                        i <= board.columns.len(),
                        ids.len() == i,
                        forall|j: int| 0 <= j < i ==> (#[trigger] ids[j])@ == board.columns[j].tag_id@,
                    decreases board.columns.len() - i,
                {
                    ids.push(board.columns[i].tag_id.clone());
                    i += 1;
                }
                assert(ids.deep_view() =~= board.deep_view().column_ids());
            },
            None => {
                assert(ids.deep_view() =~= Seq::<Seq<char>>::empty());
            },
        }
        ids
    }

    /// Gives an account its tags; the shared columns are put together again when
    /// they differ from those it had.
    pub fn set_tags(&mut self, account_id: &AccountId, tags: Vec<Tag>)
        ensures
            match old(self).board(account_id.0@) {
                Some(board) => {
                    &&& final(self).board(account_id.0@) == Some(
                        AccountBoardStateView { tags: tags.deep_view(), ..board },
                    )
                    &&& final(self).same_elsewhere(*old(self), account_id.0@)
                    &&& board.tags != tags.deep_view() ==> final(self).invalidated(*old(self))
                    &&& board.tags == tags.deep_view() ==> *final(self) == *old(self)
                },
                None => *final(self) == *old(self),
            },
            final(self).preview == old(self).preview,
            final(self).hovered_cards == old(self).hovered_cards,
            final(self).column_scrolls == old(self).column_scrolls,
            old(self).accounts.unique() ==> final(self).accounts.unique(),
    {
        let changed = match self.accounts.get(account_id) {
            Some(board) => !same_tags(&board.tags, &tags),
            None => false,
        };
        if changed {
            self.invalidate_merged();
            if let Some(board) = self.accounts.get_mut(account_id) {
                board.tags = tags;
            }
            assert(self.accounts@.remove(account_id.0@) =~= old(self).accounts@.remove(account_id.0@));
        }
    }

    /// Gives an account a column for a tag, unless it has one.
    pub fn add_column(&mut self, account_id: &AccountId, tag_id: &str)
        ensures
            match old(self).board(account_id.0@) {
                Some(board) => final(self).board(account_id.0@) == Some(board.with_column(tag_id@))
                    && final(self).same_elsewhere(*old(self), account_id.0@),
                None => final(self).accounts == old(self).accounts,
            },
            final(self).invalidated(*old(self)),
            final(self).preview == old(self).preview,
            final(self).hovered_cards == old(self).hovered_cards,
            final(self).column_scrolls == old(self).column_scrolls,
            old(self).accounts.unique() ==> final(self).accounts.unique(),
    {
        if let Some(board) = self.account_mut(account_id) {
            let ghost before = board.deep_view();
            proof {
                lemma_first_index(before.columns, column_of(tag_id@));
            }
            if column_position(&board.columns, tag_id).is_none() {
                let column = TagColumn {
                    tag_id: tag_id.to_owned(),
                    messages: Vec::new(),
                    loaded: false,
                    loading: false,
                };
                assert(column.deep_view() =~= empty_column(tag_id@, false));
                board.columns.push(column);
                assert(board.columns.deep_view() =~= before.columns.push(empty_column(tag_id@, false)));
            }
            assert(board.deep_view() == before.with_column(tag_id@));
        }
        assert(self.accounts@.remove(account_id.0@) =~= old(self).accounts@.remove(account_id.0@));
    }

    /// Takes the column of a tag off an account's part of the board.
    pub fn remove_column(&mut self, account_id: &AccountId, tag_id: &str)
        ensures
            match old(self).board(account_id.0@) {
                Some(board) => final(self).board(account_id.0@) == Some(board.without_column(tag_id@))
                    && final(self).same_elsewhere(*old(self), account_id.0@),
                None => final(self).accounts == old(self).accounts,
            },
            final(self).invalidated(*old(self)),
            final(self).preview == old(self).preview,
            final(self).hovered_cards.deep_view() == old(self).hovered_cards.deep_view().filter(
                final(self).hover_is_shown(),
            ),
            final(self).column_scrolls == old(self).column_scrolls,
            old(self).accounts.unique() ==> final(self).accounts.unique(),
    {
        let wanted = tag_id.to_owned();
        if let Some(board) = self.account_mut(account_id) {
            let ghost before = board.deep_view();
            let taken = take_list(&mut board.columns);
            board.columns = retain_where(
                taken,
                |column: &TagColumn| -> (keep: bool)
                    ensures
                        keep == (column.deep_view().tag_id != tag_id@)
                    { column.tag_id != wanted },
                Ghost(column_of_other(tag_id@)),
            );
            assert(board.deep_view() == before.without_column(tag_id@));
        }
        assert(self.accounts@.remove(account_id.0@) =~= old(self).accounts@.remove(account_id.0@));
        self.prune_card_motion();
    }

    /// Follows a tag to its new id; its column stays where it is.
    pub fn replace_tag_id(&mut self, account_id: &AccountId, old_id: &str, new_id: &str)
        ensures
            old_id@ == new_id@ ==> *final(self) == *old(self),
            old_id@ != new_id@ ==> final(self).invalidated(*old(self)) && match old(self).board(account_id.0@) {
                Some(board) => final(self).board(account_id.0@) == Some(board.with_tag_id(old_id@, new_id@))
                    && final(self).same_elsewhere(*old(self), account_id.0@),
                None => final(self).accounts == old(self).accounts,
            },
            final(self).preview == old(self).preview,
            final(self).hovered_cards == old(self).hovered_cards,
            final(self).column_scrolls == old(self).column_scrolls,
            old(self).accounts.unique() ==> final(self).accounts.unique(),
    {
        if text_eq(old_id, new_id) {
            return;
        }
        let from = old_id.to_owned();
        let to = new_id.to_owned();
        if let Some(board) = self.account_mut(account_id) {
            let ghost before = board.deep_view();
            let taken = take_list(&mut board.columns);
            board.columns = map_each(
                taken,
                |column: TagColumn| -> (after: TagColumn)
                    ensures
                        after.deep_view() == renamed_column(old_id@, new_id@)(column.deep_view())
                    {
                    if column.tag_id == from {
                        TagColumn {
                            tag_id: to.clone(),
                            messages: column.messages,
                            loaded: column.loaded,
                            loading: column.loading,
                        }
                    } else {
                        column
                    }
                },
                Ghost(renamed_column(old_id@, new_id@)),
            );
            assert(board.deep_view() == before.with_tag_id(old_id@, new_id@));
        }
        assert(self.accounts@.remove(account_id.0@) =~= old(self).accounts@.remove(account_id.0@));
    }

    /// Gives a column its messages.
    pub fn set_column_messages(&mut self, account_id: &AccountId, tag_id: &str, messages: Vec<MessageHeader>)
        ensures
            match old(self).board(account_id.0@) {
                Some(board) => final(self).board(account_id.0@) == Some(
                    board.with_messages(tag_id@, messages.deep_view()),
                ) && final(self).same_elsewhere(*old(self), account_id.0@) && final(self).hovered_cards.deep_view() == old(self).hovered_cards.deep_view().filter(
                    final(self).hover_is_shown(),
                ),
                None => final(self).accounts == old(self).accounts && final(self).hovered_cards == old(self).hovered_cards,
            },
            final(self).invalidated(*old(self)),
            final(self).preview == old(self).preview,
            final(self).column_scrolls == old(self).column_scrolls,
            old(self).accounts.unique() ==> final(self).accounts.unique(),
    {
        match self.account_mut(account_id) {
            None => {
                return;
            },
            Some(board) => {
                let ghost before = board.deep_view();
                let ghost raw = board.columns@;
                if let Some(i) = column_position(&board.columns, tag_id) {
                    let column = TagColumn { tag_id: tag_id.to_owned(), messages, loaded: true, loading: false };
                    let ghost shown = column.deep_view();
                    board.columns[i] = column;
                    assert(board.columns.deep_view() =~= before.columns.update(i as int, shown));
                }
                assert(board.deep_view() == before.with_messages(tag_id@, messages.deep_view()));
            },
        }
        assert(self.accounts@.remove(account_id.0@) =~= old(self).accounts@.remove(account_id.0@));
        self.prune_card_motion();
    }

    /// Marks a column as waiting for its messages.
    pub fn mark_column_loading(&mut self, account_id: &AccountId, tag_id: &str)
        ensures
            match old(self).board(account_id.0@) {
                Some(board) => final(self).board(account_id.0@) == Some(board.with_loading(tag_id@))
                    && final(self).same_elsewhere(*old(self), account_id.0@),
                None => final(self).accounts == old(self).accounts,
            },
            final(self).invalidated(*old(self)),
            final(self).preview == old(self).preview,
            final(self).hovered_cards == old(self).hovered_cards,
            final(self).column_scrolls == old(self).column_scrolls,
            old(self).accounts.unique() ==> final(self).accounts.unique(),
    {
        if let Some(board) = self.account_mut(account_id) {
            let ghost before = board.deep_view();
            if let Some(i) = column_position(&board.columns, tag_id) {
                board.columns[i].loading = true;
                assert(board.columns.deep_view() =~= before.columns.update(
                    i as int,
                    TagColumnView { loading: true, ..before.columns[i as int] },
                ));
            }
            assert(board.deep_view() == before.with_loading(tag_id@));
        }
        assert(self.accounts@.remove(account_id.0@) =~= old(self).accounts@.remove(account_id.0@));
    }
}

/// Whether two lists hold the same tags in the same order.
fn same_tags(left: &Vec<Tag>, right: &Vec<Tag>) -> (same: bool)
    ensures
        same == (left.deep_view() == right.deep_view()),
{
    if left.len() != right.len() {
        assert(left.deep_view().len() != right.deep_view().len());
        return false;
    }
    let mut i: usize = 0;
    while i < left.len()
        invariant
            i <= left.len(),
            left.len() == right.len(),
            forall|j: int| 0 <= j < i ==> (#[trigger] left[j]).deep_view() == right[j].deep_view(),
        decreases left.len() - i,
    {
        if left[i].id != right[i].id || left[i].display_name != right[i].display_name || left[i].color
            != right[i].color {
            assert(left.deep_view()[i as int] != right.deep_view()[i as int]);
            return false;
        }
        i += 1;
    }
    assert(left.deep_view() =~= right.deep_view());
    true
}

/// Changes one after the other outdate the shared columns as often as all of them do.
pub proof fn lemma_outdated(start: BoardState, middle: BoardState, end: BoardState, first: nat, second: nat)
    requires
        middle.outdated(start, first),
        end.outdated(middle, second),
    ensures
        end.outdated(start, first + second),
{
    lemma_bumped(start.merged_revision, first, second);
}

proof fn lemma_bumped(revision: u64, first: nat, second: nat)
    ensures
        bumped(bumped(revision, first), second) == bumped(revision, first + second),
    decreases second,
{
    if second > 0 {
        lemma_bumped(revision, first, (second - 1) as nat);
    }
}

} // verus!
