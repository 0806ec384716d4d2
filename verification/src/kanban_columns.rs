//! Shared columns of the kanban board: tags of the same name in several accounts
//! make one column.
use crate::kanban::{
    column_of, column_title, empty_column, normalized_tag_name, tag_key, AccountBoardState, AccountBoardStateView,
    BoardState, MergedCache, MergedCard, MergedCardView, MergedColumn, MergedColumnView, MergedTagTarget,
    MergedTagTargetView, TagColumn, TagColumnView,
};
use crate::list_entries::holds_text;
use crate::lists::{
    any_where, distinct, first_index, lemma_first_index, map_each, ordered, position_where, ranks, retain_where,
    sort_stable, stable_sort, take_list,
};
use crate::model::{clone_list, AccountId, MessageHeader, MessageHeaderView, MessageRefView, Tag, TagView};
use crate::text::{lowercase, text_at_most, text_eq, text_le, to_lowercase};
use vstd::prelude::*;
use vstd::string::*;

verus! {

/// The parts of the board, account by account.
pub type Boards = Seq<(Seq<char>, AccountBoardStateView)>;

/// A tag name that no column shows yet.
#[derive(Debug, PartialEq, Eq)]
pub struct AvailableTag {
    pub key: String,
    pub title: String,
    pub color: Option<u32>,
}

/// Mathematical form of [`AvailableTag`].
#[verifier::ext_equal]
pub struct AvailableTagView {
    pub key: Seq<char>,
    pub title: Seq<char>,
    pub color: Option<u32>,
}

impl DeepView for AvailableTag {
    type V = AvailableTagView;

    open spec fn deep_view(&self) -> AvailableTagView {
        AvailableTagView {
            key: self.key.deep_view(),
            title: self.title.deep_view(),
            color: self.color,
        }
    }
}

impl Clone for AvailableTag {
    fn clone(&self) -> (copy: Self)
        ensures
            copy.deep_view() == self.deep_view(),
    {
        AvailableTag {
            key: self.key.clone(),
            title: self.title.clone(),
            color: self.color,
        }
    }
}

/// Key of the shared column that a column belongs to.
pub open spec fn column_key(board: AccountBoardStateView, column: TagColumnView) -> Seq<char> {
    tag_key(column_title(board, column))
}

/// Keys of the columns of one account.
pub open spec fn board_keys(board: AccountBoardStateView) -> Seq<Seq<char>> {
    board.columns.map_values(|column: TagColumnView| column_key(board, column))
}

/// Keys of the columns of all accounts.
pub open spec fn all_keys(boards: Boards) -> Seq<Seq<char>>
    decreases boards.len(),
{
    if boards.len() == 0 {
        Seq::empty()
    } else {
        all_keys(boards.drop_last()) + board_keys(boards.last().1)
    }
}

/// The tags of all accounts.
pub open spec fn all_tags(boards: Boards) -> Seq<TagView>
    decreases boards.len(),
{
    if boards.len() == 0 {
        Seq::empty()
    } else {
        all_tags(boards.drop_last()) + boards.last().1.tags
    }
}

/// Whether an offer is the one of the name `key`.
pub open spec fn offer_of(key: Seq<char>) -> spec_fn(AvailableTagView) -> bool {
    |offer: AvailableTagView| offer.key == key
}

/// The offers once a tag was looked at: the first tag of a name gives the title,
/// the first with a color the color.
pub open spec fn with_offer(offers: Seq<AvailableTagView>, visible: Seq<Seq<char>>, tag: TagView) -> Seq<AvailableTagView> {
    let key = tag_key(tag.display_name);
    if key.len() == 0 || visible.contains(key) {
        offers
    } else {
        match first_index(offers, offer_of(key)) {
            Some(i) => if offers[i].color is None {
                offers.update(i, AvailableTagView { color: tag.color, ..offers[i] })
            } else {
                offers
            },
            None => offers.push(AvailableTagView { key, title: tag.display_name, color: tag.color }),
        }
    }
}

/// The offers that tags give.
pub open spec fn offers(tags: Seq<TagView>, visible: Seq<Seq<char>>) -> Seq<AvailableTagView>
    decreases tags.len(),
{
    if tags.len() == 0 {
        Seq::empty()
    } else {
        with_offer(offers(tags.drop_last(), visible), visible, tags.last())
    }
}

/// Whether an offer may stand before another one: by title, without regard to case.
pub open spec fn offer_le() -> spec_fn(AvailableTagView, AvailableTagView) -> bool {
    |a: AvailableTagView, b: AvailableTagView| text_le(lowercase(a.title), lowercase(b.title))
}

/// Whether a tag has a name of the key `key`.
pub open spec fn tag_named(key: Seq<char>) -> spec_fn(TagView) -> bool {
    |tag: TagView| tag_key(tag.display_name) == key
}

/// The ids of the tags of the key `key`.
pub open spec fn matching_ids(tags: Seq<TagView>, key: Seq<char>) -> Seq<Seq<char>> {
    tags.filter(tag_named(key)).map_values(|tag: TagView| tag.id)
}

/// The columns once there is one for each of the tags `ids`.
pub open spec fn grown(columns: Seq<TagColumnView>, ids: Seq<Seq<char>>) -> Seq<TagColumnView>
    decreases ids.len(),
{
    if ids.len() == 0 {
        columns
    } else {
        let before = grown(columns, ids.drop_last());
        if before.any(column_of(ids.last())) {
            before
        } else {
            before.push(empty_column(ids.last(), true))
        }
    }
}

/// The tags of `ids` that had no column.
pub open spec fn fresh_ids(columns: Seq<TagColumnView>, ids: Seq<Seq<char>>) -> Seq<Seq<char>>
    decreases ids.len(),
{
    if ids.len() == 0 {
        Seq::empty()
    } else {
        let before = fresh_ids(columns, ids.drop_last());
        if grown(columns, ids.drop_last()).any(column_of(ids.last())) {
            before
        } else {
            before.push(ids.last())
        }
    }
}

/// An account's part of the board once the tags of a name have their columns.
pub open spec fn board_with_key(board: AccountBoardStateView, key: Seq<char>) -> AccountBoardStateView {
    AccountBoardStateView { columns: grown(board.columns, matching_ids(board.tags, key)), ..board }
}

/// The tags of an account that get a column.
pub open spec fn board_added(account: Seq<char>, board: AccountBoardStateView, key: Seq<char>) -> Seq<
    (Seq<char>, Seq<char>),
> {
    fresh_ids(board.columns, matching_ids(board.tags, key)).map_values(|id: Seq<char>| (account, id))
}

/// The board once the tags of a name have their columns in every account.
pub open spec fn boards_with_key(boards: Boards, key: Seq<char>) -> Boards {
    boards.map_values(
        |entry: (Seq<char>, AccountBoardStateView)| (entry.0, board_with_key(entry.1, key)),
    )
}

/// The tags that get a column, account by account.
pub open spec fn boards_added(boards: Boards, key: Seq<char>) -> Seq<(Seq<char>, Seq<char>)>
    decreases boards.len(),
{
    if boards.len() == 0 {
        Seq::empty()
    } else {
        boards_added(boards.drop_last(), key) + board_added(boards.last().0, boards.last().1, key)
    }
}

/// The board, and the tags that got a column, once several names were added.
pub open spec fn boards_with_keys(boards: Boards, keys: Seq<Seq<char>>) -> (Boards, Seq<(Seq<char>, Seq<char>)>)
    decreases keys.len(),
{
    if keys.len() == 0 {
        (boards, Seq::empty())
    } else {
        let (before, added) = boards_with_keys(boards, keys.drop_last());
        (boards_with_key(before, keys.last()), added + boards_added(before, keys.last()))
    }
}

/// How many of several names give some tag a column when they are added one by one.
pub open spec fn adding_names(boards: Boards, keys: Seq<Seq<char>>) -> nat
    decreases keys.len(),
{
    if keys.len() == 0 {
        0
    } else {
        let before = boards_with_keys(boards, keys.drop_last()).0;
        adding_names(boards, keys.drop_last()) + (if boards_added(before, keys.last()).len() > 0 {
            1nat
        } else {
            0nat
        })
    }
}

/// Whether a column is one of none of the tags `ids`.
pub open spec fn column_outside(ids: Seq<Seq<char>>) -> spec_fn(TagColumnView) -> bool {
    |column: TagColumnView| !ids.contains(column.tag_id)
}

/// An account's part of the board once the columns of a name are gone.
pub open spec fn board_without_key(board: AccountBoardStateView, key: Seq<char>) -> AccountBoardStateView {
    AccountBoardStateView {
        columns: board.columns.filter(column_outside(matching_ids(board.tags, key))),
        ..board
    }
}

/// The board once the columns of a name are gone.
pub open spec fn boards_without_key(boards: Boards, key: Seq<char>) -> Boards {
    boards.map_values(
        |entry: (Seq<char>, AccountBoardStateView)| (entry.0, board_without_key(entry.1, key)),
    )
}

/// The accounts that lose a column of a name.
pub open spec fn accounts_losing(boards: Boards, key: Seq<char>) -> Seq<Seq<char>>
    decreases boards.len(),
{
    if boards.len() == 0 {
        Seq::empty()
    } else {
        let before = accounts_losing(boards.drop_last(), key);
        let (account, board) = boards.last();
        if board_without_key(board, key).columns.len() != board.columns.len() {
            before.push(account)
        } else {
            before
        }
    }
}

/// Whether a shared column is the one of the key `key`.
pub open spec fn merged_has_key(key: Seq<char>) -> spec_fn(MergedColumnView) -> bool {
    |column: MergedColumnView| column.key == key
}

/// Whether a card is the one of a message.
pub open spec fn card_of(reference: MessageRefView) -> spec_fn(MergedCardView) -> bool {
    |card: MergedCardView| card.message.reference() == reference
}

/// The cards once the messages of a column were added, each message once.
pub open spec fn with_cards(cards: Seq<MergedCardView>, tag_id: Seq<char>, messages: Seq<MessageHeaderView>) -> Seq<
    MergedCardView,
>
    decreases messages.len(),
{
    if messages.len() == 0 {
        cards
    } else {
        let before = with_cards(cards, tag_id, messages.drop_last());
        if before.any(card_of(messages.last().reference())) {
            before
        } else {
            before.push(MergedCardView { source_tag_id: tag_id, message: messages.last() })
        }
    }
}

/// A shared column once a column of an account was added to it.
pub open spec fn joined(shared: MergedColumnView, account: Seq<char>, column: TagColumnView) -> MergedColumnView {
    let target = MergedTagTargetView { account_id: account, tag_id: column.tag_id };
    MergedColumnView {
        targets: if shared.targets.contains(target) { shared.targets } else { shared.targets.push(target) },
        cards: with_cards(shared.cards, column.tag_id, column.messages),
        loaded: shared.loaded && column.loaded,
        ..shared
    }
}

/// A shared column that nothing was added to yet.
pub open spec fn new_shared(title: Seq<char>) -> MergedColumnView {
    MergedColumnView { key: tag_key(title), title, targets: Seq::empty(), cards: Seq::empty(), loaded: true }
}

/// The shared columns once a column of an account was placed.
pub open spec fn placed(
    merged: Seq<MergedColumnView>,
    account: Seq<char>,
    title: Seq<char>,
    column: TagColumnView,
) -> Seq<MergedColumnView> {
    match first_index(merged, merged_has_key(tag_key(title))) {
        Some(i) => merged.update(i, joined(merged[i], account, column)),
        None => merged.push(joined(new_shared(title), account, column)),
    }
}

/// The shared columns once the first `n` columns of an account were placed.
pub open spec fn board_placed(
    merged: Seq<MergedColumnView>,
    account: Seq<char>,
    board: AccountBoardStateView,
    n: int,
) -> Seq<MergedColumnView>
    decreases n,
{
    if n <= 0 {
        merged
    } else {
        placed(
            board_placed(merged, account, board, n - 1),
            account,
            column_title(board, board.columns[n - 1]),
            board.columns[n - 1],
        )
    }
}

/// The shared columns of the given accounts, cards not yet in order.
pub open spec fn unsorted_columns(accounts: Map<Seq<char>, AccountBoardState>, order: Seq<Seq<char>>) -> Seq<
    MergedColumnView,
>
    decreases order.len(),
{
    if order.len() == 0 {
        Seq::empty()
    } else {
        let before = unsorted_columns(accounts, order.drop_last());
        let account = order.last();
        if accounts.contains_key(account) {
            let board = accounts[account].deep_view();
            board_placed(before, account, board, board.columns.len() as int)
        } else {
            before
        }
    }
}

/// Whether a card may stand before another one: newest first.
pub open spec fn newer_card() -> spec_fn(MergedCardView, MergedCardView) -> bool {
    |a: MergedCardView, b: MergedCardView| a.message.received >= b.message.received
}

/// A shared column with its cards in order.
pub open spec fn with_sorted_cards() -> spec_fn(MergedColumnView) -> MergedColumnView {
    |column: MergedColumnView| MergedColumnView { cards: stable_sort(column.cards, newer_card()), ..column }
}

/// The shared columns of the given accounts.
pub open spec fn shared_columns(accounts: Map<Seq<char>, AccountBoardState>, order: Seq<Seq<char>>) -> Seq<
    MergedColumnView,
> {
    unsorted_columns(accounts, order).map_values(with_sorted_cards())
}

/// Key of the shared column that a column belongs to.
fn key_of_column(tags: &Vec<Tag>, tag_id: &String) -> (key: String)
    ensures
        key@ == match first_index(tags.deep_view(), crate::kanban::tag_has_id(tag_id@)) {
            Some(i) => tag_key(tags.deep_view()[i].display_name),
            None => tag_key(tag_id@),
        },
{
    normalized_tag_name(&crate::kanban::title_of_column(tags, tag_id))
}

/// The ids of the tags of the key `key`.
fn collect_matching(tags: &Vec<Tag>, key: &str) -> (ids: Vec<String>)
    ensures
        ids.deep_view() == matching_ids(tags.deep_view(), key@),
{
    let ghost all = tags.deep_view();
    let ghost id_of = |tag: TagView| tag.id;
    let mut ids: Vec<String> = Vec::new();
    let mut i: usize = 0;
    assert(all.take(0).filter(tag_named(key@)) =~= Seq::<TagView>::empty()) by {
        reveal(Seq::filter);
    }
    assert(ids.deep_view() =~= matching_ids(all.take(0), key@));
    while i < tags.len()
        invariant
            i <= tags.len(),
            all == tags.deep_view(),
            ids.deep_view() == matching_ids(all.take(i as int), key@),
        decreases tags.len() - i,
    {
        let ghost before = ids.deep_view();
        assert(all[i as int] == tags[i as int].deep_view());
        proof {
            reveal(Seq::filter);
            assert(all.take(i + 1).drop_last() =~= all.take(i as int));
            let front = all.take(i as int).filter(tag_named(key@));
            assert(front.push(all[i as int]).map_values(|tag: TagView| tag.id) =~= front.map_values(
                |tag: TagView| tag.id,
            ).push(all[i as int].id));
        }
        if text_eq(&normalized_tag_name(&tags[i].display_name), key) {
            ids.push(tags[i].id.clone());
            assert(ids.deep_view() =~= before.push(all[i as int].id));
        }
        i += 1;
    }
    assert(all.take(all.len() as int) =~= all);
    ids
}

/// Gives each of the tags `ids` a column, noting those that had none.
fn grow_columns(columns: &mut Vec<TagColumn>, ids: &Vec<String>, account: &AccountId, added: &mut Vec<(AccountId, String)>)
    ensures
        final(columns).deep_view() == grown(old(columns).deep_view(), ids.deep_view()),
        final(added).deep_view() == old(added).deep_view() + fresh_ids(
            old(columns).deep_view(),
            ids.deep_view(),
        ).map_values(|id: Seq<char>| (account.0@, id)),
{
    let ghost start = columns.deep_view();
    let ghost noted = added.deep_view();
    let ghost all = ids.deep_view();
    let ghost name = |id: Seq<char>| (account.0@, id);
    let mut i: usize = 0;
    assert(all.take(0) =~= Seq::<Seq<char>>::empty());
    assert(noted + fresh_ids(start, all.take(0)).map_values(name) =~= noted);
    while i < ids.len()
        invariant
            i <= ids.len(),
            all == ids.deep_view(),
            name == (|id: Seq<char>| (account.0@, id)),
            columns.deep_view() == grown(start, all.take(i as int)),
            added.deep_view() == noted + fresh_ids(start, all.take(i as int)).map_values(name),
        decreases ids.len() - i,
    {
        let ghost columns_before = columns.deep_view();
        let ghost added_before = added.deep_view();
        assert(all[i as int] == ids[i as int]@);
        assert(all.take(i + 1).drop_last() =~= all.take(i as int));
        assert(all.take(i + 1).last() == ids[i as int]@);
        proof {
            lemma_first_index(columns_before, column_of(ids[i as int]@));
            let front = fresh_ids(start, all.take(i as int));
            assert(front.push(all[i as int]).map_values(name) =~= front.map_values(name).push(name(all[i as int])));
        }
        if crate::kanban::column_position(columns, &ids[i]).is_none() {
            let column = TagColumn { tag_id: ids[i].clone(), messages: Vec::new(), loaded: false, loading: true };
            assert(column.deep_view() =~= empty_column(ids[i as int]@, true));
            columns.push(column);
            added.push((account.clone(), ids[i].clone()));
            assert(columns.deep_view() =~= columns_before.push(empty_column(ids[i as int]@, true)));
            assert(added.deep_view() =~= added_before.push((account.0@, ids[i as int]@)));
            assert(added.deep_view() =~= noted + fresh_ids(start, all.take(i + 1)).map_values(name));
        }
        i += 1;
    }
    assert(all.take(all.len() as int) =~= all);
}

impl BoardState {
    /// Keys of the columns that the board shows.
    pub fn visible_keys(&self) -> (keys: Vec<String>)
        ensures
            keys.deep_view() == distinct(all_keys(self.accounts.entries.deep_view())),
    {
        let ghost boards = self.accounts.entries.deep_view();
        let mut keys: Vec<String> = Vec::new();
        let mut a: usize = 0;
        assert(boards.take(0) =~= Seq::<(Seq<char>, AccountBoardStateView)>::empty());
        assert(keys.deep_view() =~= distinct(all_keys(boards.take(0))));
        while a < self.accounts.entries.len()
            invariant
                a <= self.accounts.entries.len(),
                boards == self.accounts.entries.deep_view(),
                keys.deep_view() == distinct(all_keys(boards.take(a as int))),
            decreases self.accounts.entries.len() - a,
        {
            let board = &self.accounts.entries[a].1;
            let ghost shown = board.deep_view();
            let ghost before = all_keys(boards.take(a as int));
            let ghost own = board_keys(shown);
            assert(boards[a as int].1 == shown);
            assert(boards.take(a + 1).drop_last() =~= boards.take(a as int));
            let mut c: usize = 0;
            assert(before + own.take(0) =~= before);
            while c < board.columns.len()
                invariant
                    c <= board.columns.len(),
                    shown == board.deep_view(),
                    own == board_keys(shown),
                    keys.deep_view() == distinct(before + own.take(c as int)),
                decreases board.columns.len() - c,
            {
                let ghost listed = keys.deep_view();
                assert(shown.columns[c as int] == board.columns[c as int].deep_view());
                let key = key_of_column(&board.tags, &board.columns[c].tag_id);
                let ghost text = key@;
                assert(own[c as int] == text);
                assert((before + own.take(c + 1)).drop_last() =~= before + own.take(c as int));
                assert((before + own.take(c + 1)).last() == text);
                if !holds_text(&keys, &key) {
                    keys.push(key);
                    assert(keys.deep_view() =~= listed.push(text));
                }
                c += 1;
            }
            assert(own.take(own.len() as int) =~= own);
            a += 1;
        }
        assert(boards.take(boards.len() as int) =~= boards);
        keys
    }

    /// Tag names that no column shows, in alphabetical order.
    pub fn available_tag_names(&self) -> (names: Vec<AvailableTag>)
        ensures
            names.deep_view() == stable_sort(
                offers(
                    all_tags(self.accounts.entries.deep_view()),
                    distinct(all_keys(self.accounts.entries.deep_view())),
                ),
                offer_le(),
            ),
    {
        let visible = self.visible_keys();
        let ghost boards = self.accounts.entries.deep_view();
        let ghost hidden = visible.deep_view();
        let mut names: Vec<AvailableTag> = Vec::new();
        let mut a: usize = 0;
        assert(boards.take(0) =~= Seq::<(Seq<char>, AccountBoardStateView)>::empty());
        assert(names.deep_view() =~= offers(all_tags(boards.take(0)), hidden));
        while a < self.accounts.entries.len()
            invariant
                a <= self.accounts.entries.len(),
                boards == self.accounts.entries.deep_view(),
                hidden == visible.deep_view(),
                names.deep_view() == offers(all_tags(boards.take(a as int)), hidden),
            decreases self.accounts.entries.len() - a,
        {
            let board = &self.accounts.entries[a].1;
            let ghost own = board.tags.deep_view();
            let ghost before = all_tags(boards.take(a as int));
            assert(boards[a as int].1 == board.deep_view());
            assert(boards.take(a + 1).drop_last() =~= boards.take(a as int));
            let mut t: usize = 0;
            assert(before + own.take(0) =~= before);
            while t < board.tags.len()
                invariant
                    t <= board.tags.len(),
                    own == board.tags.deep_view(),
                    hidden == visible.deep_view(),
                    names.deep_view() == offers(before + own.take(t as int), hidden),
                decreases board.tags.len() - t,
            {
                assert(own[t as int] == board.tags[t as int].deep_view());
                assert((before + own.take(t + 1)).drop_last() =~= before + own.take(t as int));
                assert((before + own.take(t + 1)).last() == own[t as int]);
                offer_tag(&mut names, &visible, &board.tags[t]);
                t += 1;
            }
            assert(own.take(own.len() as int) =~= own);
            a += 1;
        }
        assert(boards.take(boards.len() as int) =~= boards);
        sort_stable(
            names,
            |x: &AvailableTag, y: &AvailableTag| -> (le: bool)
                ensures
                    le == offer_le()(x.deep_view(), y.deep_view())
                { text_at_most(&to_lowercase(&x.title), &to_lowercase(&y.title)) },
            Ghost(offer_le()),
        )
    }

    /// Gives the tags of a name their columns in every account, returning those
    /// that had none.
    pub fn add_merged_column(&mut self, key: &str) -> (added: Vec<(AccountId, String)>)
        ensures
            added.deep_view() == boards_added(old(self).accounts.entries.deep_view(), key@),
            final(self).accounts.entries.deep_view() == boards_with_key(
                old(self).accounts.entries.deep_view(),
                key@,
            ),
            added.len() > 0 ==> final(self).invalidated(*old(self)),
            added.len() == 0 ==> final(self).merged_cache == old(self).merged_cache && final(self).merged_revision
                == old(self).merged_revision,
            final(self).preview == old(self).preview,
            final(self).hovered_cards == old(self).hovered_cards,
            final(self).column_scrolls == old(self).column_scrolls,
    {
        let ghost boards = self.accounts.entries.deep_view();
        let mut added: Vec<(AccountId, String)> = Vec::new();
        let mut a: usize = 0;
        assert(boards.take(0) =~= Seq::<(Seq<char>, AccountBoardStateView)>::empty());
        assert(added.deep_view() =~= boards_added(boards.take(0), key@));
        while a < self.accounts.entries.len()
            invariant
                a <= self.accounts.entries.len(),
                boards.len() == self.accounts.entries.len(),
                boards == old(self).accounts.entries.deep_view(),
                forall|i: int|
                    a <= i < boards.len() ==> (#[trigger] self.accounts.entries@[i]).deep_view() == boards[i],
                forall|i: int|
                    0 <= i < a ==> (#[trigger] self.accounts.entries@[i]).deep_view() == boards_with_key(
                        boards,
                        key@,
                    )[i],
                added.deep_view() == boards_added(boards.take(a as int), key@),
                *self == (BoardState { accounts: self.accounts, ..*old(self) }),
            decreases self.accounts.entries.len() - a,
        {
            assert(self.accounts.entries@[a as int].deep_view() == boards[a as int]);
            assert(boards.take(a + 1).drop_last() =~= boards.take(a as int));
            let ghost noted = added.deep_view();
            let account = self.accounts.entries[a].0.clone();
            let ids = collect_matching(&self.accounts.entries[a].1.tags, key);
            let mut columns = take_list(&mut self.accounts.entries[a].1.columns);
            let ghost board = boards[a as int].1;
            assert(columns.deep_view() == board.columns);
            grow_columns(&mut columns, &ids, &account, &mut added);
            self.accounts.entries[a].1.columns = columns;
            assert(self.accounts.entries@[a as int].1.deep_view() == board_with_key(board, key@));
            assert(added.deep_view() =~= boards_added(boards.take(a + 1), key@));
            a += 1;
        }
        assert(boards.take(boards.len() as int) =~= boards);
        assert(self.accounts.entries.deep_view() =~= boards_with_key(boards, key@));
        if added.len() > 0 {
            self.invalidate_merged();
        }
        added
    }

    /// Gives the columns that the board shows their counterparts in every account.
    pub fn merge_matching_columns(&mut self) -> (added: Vec<(AccountId, String)>)
        ensures
            ({
                let boards = old(self).accounts.entries.deep_view();
                let (after, new) = boards_with_keys(boards, distinct(all_keys(boards)));
                &&& added.deep_view() == new
                &&& final(self).accounts.entries.deep_view() == after
                &&& final(self).outdated(*old(self), adding_names(boards, distinct(all_keys(boards))))
            }),
            final(self).preview == old(self).preview,
            final(self).hovered_cards == old(self).hovered_cards,
            final(self).column_scrolls == old(self).column_scrolls,
    {
        let ghost boards = self.accounts.entries.deep_view();
        let visible = self.visible_keys();
        let ghost keys = visible.deep_view();
        let mut added: Vec<(AccountId, String)> = Vec::new();
        let mut i: usize = 0;
        assert(keys.take(0) =~= Seq::<Seq<char>>::empty());
        assert(added.deep_view() =~= Seq::<(Seq<char>, Seq<char>)>::empty());
        while i < visible.len()
            invariant
                i <= visible.len(),
                keys == visible.deep_view(),
                self.accounts.entries.deep_view() == boards_with_keys(boards, keys.take(i as int)).0,
                added.deep_view() == boards_with_keys(boards, keys.take(i as int)).1,
                self.outdated(*old(self), adding_names(boards, keys.take(i as int))),
                self.preview == old(self).preview,
                self.hovered_cards == old(self).hovered_cards,
                self.column_scrolls == old(self).column_scrolls,
            decreases visible.len() - i,
        {
            assert(keys[i as int] == visible[i as int]@);
            assert(keys.take(i + 1).drop_last() =~= keys.take(i as int));
            assert(keys.take(i + 1).last() == visible[i as int]@);
            let ghost noted = added.deep_view();
            let mut new = self.add_merged_column(&visible[i]);
            let ghost fresh = new.deep_view();
            added.append(&mut new);
            assert(added.deep_view() =~= noted + fresh);
            i += 1;
        }
        assert(keys.take(keys.len() as int) =~= keys);
        added
    }

    /// Takes the columns of a name off the board, returning the accounts that had one.
    pub fn remove_merged_column(&mut self, key: &str) -> (changed: Vec<AccountId>)
        ensures
            changed.deep_view() == accounts_losing(old(self).accounts.entries.deep_view(), key@),
            final(self).accounts.entries.deep_view() == boards_without_key(
                old(self).accounts.entries.deep_view(),
                key@,
            ),
            changed.len() > 0 ==> final(self).invalidated(*old(self)) && final(self).hovered_cards.deep_view() == old(
                self).hovered_cards.deep_view().filter(final(self).hover_is_shown()),
            changed.len() == 0 ==> final(self).merged_cache == old(self).merged_cache && final(self).merged_revision
                == old(self).merged_revision && final(self).hovered_cards == old(self).hovered_cards,
            final(self).preview == old(self).preview,
            final(self).column_scrolls == old(self).column_scrolls,
    {
        let ghost boards = self.accounts.entries.deep_view();
        let mut changed: Vec<AccountId> = Vec::new();
        let mut a: usize = 0;
        assert(boards.take(0) =~= Seq::<(Seq<char>, AccountBoardStateView)>::empty());
        assert(changed.deep_view() =~= Seq::<Seq<char>>::empty());
        while a < self.accounts.entries.len()
            invariant
                a <= self.accounts.entries.len(),
                boards.len() == self.accounts.entries.len(),
                boards == old(self).accounts.entries.deep_view(),
                forall|i: int|
                    a <= i < boards.len() ==> (#[trigger] self.accounts.entries@[i]).deep_view() == boards[i],
                forall|i: int|
                    0 <= i < a ==> (#[trigger] self.accounts.entries@[i]).deep_view() == boards_without_key(
                        boards,
                        key@,
                    )[i],
                changed.deep_view() == accounts_losing(boards.take(a as int), key@),
                *self == (BoardState { accounts: self.accounts, ..*old(self) }),
            decreases self.accounts.entries.len() - a,
        {
            assert(self.accounts.entries@[a as int].deep_view() == boards[a as int]);
            assert(boards.take(a + 1).drop_last() =~= boards.take(a as int));
            let ghost noted = changed.deep_view();
            let ghost board = boards[a as int].1;
            let ids = collect_matching(&self.accounts.entries[a].1.tags, key);
            let columns = take_list(&mut self.accounts.entries[a].1.columns);
            let before: usize = columns.len();
            assert(columns.deep_view() == board.columns);
            assert(before == board.columns.len());
            let ghost test = column_outside(ids.deep_view());
            let kept = retain_where(
                columns,
                |column: &TagColumn| -> (keep: bool)
                    ensures
                        keep == !ids.deep_view().contains(column.deep_view().tag_id)
                    { !holds_text(&ids, &column.tag_id) },
                Ghost(test),
            );
            let after: usize = kept.len();
            assert(kept.deep_view().len() == after);
            self.accounts.entries[a].1.columns = kept;
            assert(self.accounts.entries@[a as int].1.deep_view() == board_without_key(board, key@));
            if after != before {
                changed.push(self.accounts.entries[a].0.clone());
                assert(changed.deep_view() =~= noted.push(boards[a as int].0));
            }
            a += 1;
        }
        assert(boards.take(boards.len() as int) =~= boards);
        assert(self.accounts.entries.deep_view() =~= boards_without_key(boards, key@));
        if changed.len() > 0 {
            self.invalidate_merged();
            self.prune_card_motion();
        }
        changed
    }

    /// What was put together before is still right.
    pub open spec fn coherent(self) -> bool {
        match self.merged_cache {
            Some(cache) => cache.revision == self.merged_revision ==> cache.columns.deep_view() == shared_columns(
                self.accounts@,
                cache.order.deep_view(),
            ),
            None => true,
        }
    }

    /// Whether what was put together before answers for the accounts `order`.
    pub open spec fn cached(self, order: Seq<Seq<char>>) -> bool {
        self.merged_cache is Some && self.merged_cache->0.revision == self.merged_revision
            && self.merged_cache->0.order.deep_view() == order
    }

    /// The shared columns of the given accounts, as they were put together before or
    /// put together anew.
    pub fn merged_columns(&mut self, account_order: &Vec<AccountId>) -> (columns: Vec<MergedColumn>)
        ensures
            old(self).cached(account_order.deep_view()) ==> columns.deep_view() == old(
                self).merged_cache->0.columns.deep_view() && *final(self) == *old(self),
            !old(self).cached(account_order.deep_view()) ==> columns.deep_view() == shared_columns(
                old(self).accounts@,
                account_order.deep_view(),
            ) && final(self).cached(account_order.deep_view()),
            old(self).coherent() ==> columns.deep_view() == shared_columns(
                old(self).accounts@,
                account_order.deep_view(),
            ) && final(self).coherent(),
            *final(self) == (BoardState { merged_cache: final(self).merged_cache, ..*old(self) }),
    {
        if let Some(cache) = &self.merged_cache {
            if cache.revision == self.merged_revision && same_order(&cache.order, account_order) {
                return clone_list(&cache.columns);
            }
        }
        let merged = self.put_together(account_order);
        let columns = clone_list(&merged);
        self.merged_cache = Some(
            MergedCache { revision: self.merged_revision, order: clone_list(account_order), columns: merged },
        );
        columns
    }

    /// The shared columns of the given accounts, put together.
    fn put_together(&self, account_order: &Vec<AccountId>) -> (columns: Vec<MergedColumn>)
        ensures
            columns.deep_view() == shared_columns(self.accounts@, account_order.deep_view()),
    {
        let ghost order = account_order.deep_view();
        let mut merged: Vec<MergedColumn> = Vec::new();
        let mut a: usize = 0;
        assert(order.take(0) =~= Seq::<Seq<char>>::empty());
        assert(merged.deep_view() =~= unsorted_columns(self.accounts@, order.take(0)));
        while a < account_order.len()
            invariant
                a <= account_order.len(),
                order == account_order.deep_view(),
                merged.deep_view() == unsorted_columns(self.accounts@, order.take(a as int)),
            decreases account_order.len() - a,
        {
            let account = &account_order[a];
            assert(order[a as int] == account.0@);
            assert(order.take(a + 1).drop_last() =~= order.take(a as int));
            assert(order.take(a + 1).last() == account.0@);
            if let Some(board) = self.accounts.get(account) {
                let ghost start = merged.deep_view();
                let ghost shown = board.deep_view();
                let mut c: usize = 0;
                while c < board.columns.len()
                    invariant
                        c <= board.columns.len(),
                        shown == board.deep_view(),
                        merged.deep_view() == board_placed(start, account.0@, shown, c as int),
                    decreases board.columns.len() - c,
                {
                    assert(shown.columns[c as int] == board.columns[c as int].deep_view());
                    let title = crate::kanban::title_of_column(&board.tags, &board.columns[c].tag_id);
                    assert(title@ == column_title(shown, shown.columns[c as int]));
                    place_column(&mut merged, account, title, &board.columns[c]);
                    c += 1;
                }
                assert(shown.columns.len() == board.columns.len());
            }
            a += 1;
        }
        assert(order.take(order.len() as int) =~= order);
        map_each(
            merged,
            |column: MergedColumn| -> (after: MergedColumn)
                ensures
                    after.deep_view() == with_sorted_cards()(column.deep_view())
                { sort_cards(column) },
            Ghost(with_sorted_cards()),
        )
    }

    /// Keeps a scroll position for each column that the board shows, and for no other.
    pub fn sync_column_scrolls(&mut self)
        ensures
            forall|key: Seq<char>|
                #![trigger final(self).column_scrolls.deep_view().contains(key)]
                final(self).column_scrolls.deep_view().contains(key) <==> all_keys(
                    old(self).accounts.entries.deep_view(),
                ).contains(key),
            *final(self) == (BoardState { column_scrolls: final(self).column_scrolls, ..*old(self) }),
    {
        let visible = self.visible_keys();
        proof {
            crate::lists::lemma_distinct(all_keys(self.accounts.entries.deep_view()));
        }
        self.column_scrolls = visible;
    }
}

/// Cards of a column newest first.
fn sort_cards(column: MergedColumn) -> (sorted: MergedColumn)
    ensures
        sorted.deep_view() == with_sorted_cards()(column.deep_view()),
{
    let cards = sort_stable(
        column.cards,
        |a: &MergedCard, b: &MergedCard| -> (le: bool)
            ensures
                le == newer_card()(a.deep_view(), b.deep_view())
            { a.message.received >= b.message.received },
        Ghost(newer_card()),
    );
    MergedColumn { key: column.key, title: column.title, targets: column.targets, cards, loaded: column.loaded }
}

/// Whether two lists name the same accounts in the same order.
fn same_order(left: &Vec<AccountId>, right: &Vec<AccountId>) -> (same: bool)
    ensures
        same == (left.deep_view() == right.deep_view()),
{
    if left.len() != right.len() {
        assert(left.deep_view().len() != right.deep_view().len());
        return false;
    }
    let mut i: usize = 0;
    while i < left.len()
        invariant
            i <= left.len(),
            left.len() == right.len(),
            forall|j: int| 0 <= j < i ==> (#[trigger] left[j]).deep_view() == right[j].deep_view(),
        decreases left.len() - i,
    {
        if left[i] != right[i] {
            assert(left.deep_view()[i as int] != right.deep_view()[i as int]);
            return false;
        }
        i += 1;
    }
    assert(left.deep_view() =~= right.deep_view());
    true
}

/// Looks at a tag that may be offered.
fn offer_tag(names: &mut Vec<AvailableTag>, visible: &Vec<String>, tag: &Tag)
    ensures
        final(names).deep_view() == with_offer(old(names).deep_view(), visible.deep_view(), tag.deep_view()),
{
    let ghost before = names.deep_view();
    let key = normalized_tag_name(&tag.display_name);
    if key.as_str().is_empty() || holds_text(visible, &key) {
        return;
    }
    let found = position_where(
        names,
        |offer: &AvailableTag| -> (same: bool)
            ensures
                same == (offer.deep_view().key == key@)
            { offer.key == key },
        Ghost(offer_of(key@)),
    );
    match found {
        Some(i) => {
            assert(before[i as int] == names[i as int].deep_view());
            if names[i].color.is_none() {
                names[i].color = tag.color;
                assert(names.deep_view() =~= before.update(
                    i as int,
                    AvailableTagView { color: tag.color, ..before[i as int] },
                ));
            }
        },
        None => {
            let ghost text = key@;
            names.push(AvailableTag { key, title: tag.display_name.clone(), color: tag.color });
            assert(names.deep_view() =~= before.push(
                AvailableTagView { key: text, title: tag.deep_view().display_name, color: tag.color },
            ));
        },
    }
}

/// Adds the messages of a column to the cards, each message once.
fn add_cards(cards: &mut Vec<MergedCard>, tag_id: &String, messages: &Vec<MessageHeader>)
    ensures
        final(cards).deep_view() == with_cards(old(cards).deep_view(), tag_id@, messages.deep_view()),
{
    let ghost start = cards.deep_view();
    let ghost all = messages.deep_view();
    let mut i: usize = 0;
    assert(all.take(0) =~= Seq::<MessageHeaderView>::empty());
    while i < messages.len()
        invariant
            i <= messages.len(),
            all == messages.deep_view(),
            cards.deep_view() == with_cards(start, tag_id@, all.take(i as int)),
        decreases messages.len() - i,
    {
        let ghost before = cards.deep_view();
        let message = &messages[i];
        assert(all[i as int] == message.deep_view());
        assert(all.take(i + 1).drop_last() =~= all.take(i as int));
        assert(all.take(i + 1).last() == message.deep_view());
        let known = any_where(
            cards,
            |card: &MergedCard| -> (same: bool)
                ensures
                    same == (card.deep_view().message.reference() == message.deep_view().reference())
                { card.message.account_id == message.account_id && card.message.id == message.id },
            Ghost(card_of(message.deep_view().reference())),
        );
        if !known {
            cards.push(MergedCard { source_tag_id: tag_id.clone(), message: message.clone() });
            assert(cards.deep_view() =~= before.push(
                MergedCardView { source_tag_id: tag_id@, message: message.deep_view() },
            ));
        }
        i += 1;
    }
    assert(all.take(all.len() as int) =~= all);
}

/// Adds a column of an account to a shared column.
fn join_column(shared: &mut MergedColumn, account: &AccountId, column: &TagColumn)
    ensures
        final(shared).deep_view() == joined(old(shared).deep_view(), account.0@, column.deep_view()),
{
    let ghost before = shared.deep_view();
    let ghost target = MergedTagTargetView { account_id: account.0@, tag_id: column.tag_id@ };
    let ghost test = |other: MergedTagTargetView| other == target;
    let known = any_where(
        &shared.targets,
        |other: &MergedTagTarget| -> (same: bool)
            ensures
                same == (other.deep_view() == target)
            { other.account_id == *account && other.tag_id == column.tag_id },
        Ghost(test),
    );
    proof {
        let s = before.targets;
        if s.contains(target) {
            let i = choose|i: int| 0 <= i < s.len() && s[i] == target;
            assert(test(s[i]));
        }
    }
    if !known {
        shared.targets.push(MergedTagTarget { account_id: account.clone(), tag_id: column.tag_id.clone() });
        assert(shared.targets.deep_view() =~= before.targets.push(target));
    }
    shared.loaded = shared.loaded && column.loaded;
    add_cards(&mut shared.cards, &column.tag_id, &column.messages);
}

/// Places a column of an account among the shared columns.
fn place_column(merged: &mut Vec<MergedColumn>, account: &AccountId, title: String, column: &TagColumn)
    ensures
        final(merged).deep_view() == placed(old(merged).deep_view(), account.0@, title@, column.deep_view()),
{
    let ghost before = merged.deep_view();
    let key = normalized_tag_name(&title);
    let found = position_where(
        merged,
        |shared: &MergedColumn| -> (same: bool)
            ensures
                same == (shared.deep_view().key == key@)
            { shared.key == key },
        Ghost(merged_has_key(key@)),
    );
    match found {
        Some(i) => {
            assert(before[i as int] == merged[i as int].deep_view());
            let ghost expected = joined(before[i as int], account.0@, column.deep_view());
            join_column(&mut merged[i], account, column);
            assert(merged.deep_view() =~= before.update(i as int, expected));
        },
        None => {
            let ghost text = title@;
            let mut shared = MergedColumn { key, title, targets: Vec::new(), cards: Vec::new(), loaded: true };
            assert(shared.deep_view() =~= new_shared(text));
            join_column(&mut shared, account, column);
            let ghost joined_column = shared.deep_view();
            merged.push(shared);
            assert(merged.deep_view() =~= before.push(joined_column));
        },
    }
}

/// No two shared columns have one key, and no shared column holds a target or the
/// card of a message twice.
pub open spec fn well_merged(merged: Seq<MergedColumnView>) -> bool {
    &&& forall|i: int, j: int|
        #![trigger merged[i], merged[j]]
        0 <= i < j < merged.len() ==> merged[i].key != merged[j].key
    &&& forall|i: int| 0 <= i < merged.len() ==> well_joined(#[trigger] merged[i])
}

/// A shared column holds no target and no card of a message twice.
pub open spec fn well_joined(column: MergedColumnView) -> bool {
    &&& column.key == tag_key(column.title)
    &&& column.targets.no_duplicates()
    &&& forall|i: int, j: int|
        #![trigger column.cards[i], column.cards[j]]
        0 <= i < j < column.cards.len() ==> column.cards[i].message.reference()
            != column.cards[j].message.reference()
}

proof fn lemma_with_cards(cards: Seq<MergedCardView>, tag_id: Seq<char>, messages: Seq<MessageHeaderView>)
    requires
        forall|i: int, j: int|
            #![trigger cards[i], cards[j]]
            0 <= i < j < cards.len() ==> cards[i].message.reference() != cards[j].message.reference(),
    ensures
        ({
            let after = with_cards(cards, tag_id, messages);
            forall|i: int, j: int|
                #![trigger after[i], after[j]]
                0 <= i < j < after.len() ==> after[i].message.reference() != after[j].message.reference()
        }),
    decreases messages.len(),
{
    if messages.len() > 0 {
        lemma_with_cards(cards, tag_id, messages.drop_last());
        let before = with_cards(cards, tag_id, messages.drop_last());
        let after = with_cards(cards, tag_id, messages);
        let reference = messages.last().reference();
        assert forall|i: int, j: int| #![trigger after[i], after[j]] 0 <= i < j < after.len() implies
            after[i].message.reference() != after[j].message.reference() by {
            if j == before.len() {
                if before[i].message.reference() == reference {
                    assert(card_of(reference)(before[i]));
                }
            } else {
                assert(before[i] == after[i] && before[j] == after[j]);
            }
        }
    }
}

proof fn lemma_joined(shared: MergedColumnView, account: Seq<char>, column: TagColumnView)
    requires
        well_joined(shared),
    ensures
        well_joined(joined(shared, account, column)),
        joined(shared, account, column).key == shared.key,
{
    lemma_with_cards(shared.cards, column.tag_id, column.messages);
    let target = MergedTagTargetView { account_id: account, tag_id: column.tag_id };
    if !shared.targets.contains(target) {
        let after = shared.targets.push(target);
        assert forall|i: int, j: int| 0 <= i < j < after.len() implies after[i] != after[j] by {
            if j == shared.targets.len() {
                assert(shared.targets.contains(shared.targets[i]));
            }
        }
    }
}

proof fn lemma_placed(merged: Seq<MergedColumnView>, account: Seq<char>, title: Seq<char>, column: TagColumnView)
    requires
        well_merged(merged),
    ensures
        well_merged(placed(merged, account, title, column)),
{
    let key = tag_key(title);
    let after = placed(merged, account, title, column);
    lemma_first_index(merged, merged_has_key(key));
    match first_index(merged, merged_has_key(key)) {
        Some(i) => {
            lemma_joined(merged[i], account, column);
            assert forall|a: int, b: int| #![trigger after[a], after[b]] 0 <= a < b < after.len() implies after[a].key
                != after[b].key by {
                assert(merged[a].key != merged[b].key);
            }
            assert forall|a: int| 0 <= a < after.len() implies well_joined(#[trigger] after[a]) by {
                assert(well_joined(merged[a]));
            }
        },
        None => {
            lemma_joined(new_shared(title), account, column);
            assert forall|a: int, b: int| #![trigger after[a], after[b]] 0 <= a < b < after.len() implies after[a].key
                != after[b].key by {
                if b == merged.len() {
                    assert(!merged_has_key(key)(merged[a]));
                } else {
                    assert(merged[a].key != merged[b].key);
                }
            }
            assert forall|a: int| 0 <= a < after.len() implies well_joined(#[trigger] after[a]) by {
                if a < merged.len() {
                    assert(well_joined(merged[a]));
                }
            }
        },
    }
}

proof fn lemma_board_placed(merged: Seq<MergedColumnView>, account: Seq<char>, board: AccountBoardStateView, n: int)
    requires
        well_merged(merged),
    ensures
        well_merged(board_placed(merged, account, board, n)),
    decreases n,
{
    if n > 0 {
        lemma_board_placed(merged, account, board, n - 1);
        lemma_placed(
            board_placed(merged, account, board, n - 1),
            account,
            column_title(board, board.columns[n - 1]),
            board.columns[n - 1],
        );
    }
}

proof fn lemma_unsorted(accounts: Map<Seq<char>, AccountBoardState>, order: Seq<Seq<char>>)
    ensures
        well_merged(unsorted_columns(accounts, order)),
    decreases order.len(),
{
    if order.len() > 0 {
        lemma_unsorted(accounts, order.drop_last());
        let account = order.last();
        if accounts.contains_key(account) {
            let board = accounts[account].deep_view();
            lemma_board_placed(
                unsorted_columns(accounts, order.drop_last()),
                account,
                board,
                board.columns.len() as int,
            );
        }
    }
}

/// A change of the board never leaves shared columns that are out of date.
pub proof fn law_changes_outdate_the_columns(before: BoardState, after: BoardState)
    requires
        after.invalidated(before) || after == before && before.coherent(),
    ensures
        after.coherent(),
{
}

/// Tags of one name make one column: no two shared columns have the same key, none
/// holds a target or the card of a message twice, and cards come newest first.
pub proof fn law_shared_columns(accounts: Map<Seq<char>, AccountBoardState>, order: Seq<Seq<char>>)
    ensures
        well_merged(shared_columns(accounts, order)),
        forall|i: int|
            0 <= i < shared_columns(accounts, order).len() ==> ordered(
                (#[trigger] shared_columns(accounts, order)[i]).cards,
                newer_card(),
            ),
{
    broadcast use vstd::seq_lib::group_to_multiset_ensures;

    let unsorted = unsorted_columns(accounts, order);
    let shared = shared_columns(accounts, order);
    lemma_unsorted(accounts, order);
    assert(ranks(newer_card())) by {
        assert forall|a: MergedCardView, b: MergedCardView| #![trigger newer_card()(a, b)] newer_card()(a, b)
            || newer_card()(b, a) by {}
    }
    assert forall|i: int| 0 <= i < shared.len() implies well_joined(#[trigger] shared[i]) && ordered(
        shared[i].cards,
        newer_card(),
    ) by {
        assert(well_joined(unsorted[i]));
        crate::lists::lemma_stable_sort(unsorted[i].cards, newer_card());
        lemma_sorted_cards_distinct(unsorted[i].cards);
    }
    assert forall|i: int, j: int| #![trigger shared[i], shared[j]] 0 <= i < j < shared.len() implies shared[i].key
        != shared[j].key by {
        assert(unsorted[i].key != unsorted[j].key);
    }
}

/// Sorting does not bring a message in twice.
proof fn lemma_sorted_cards_distinct(cards: Seq<MergedCardView>)
    requires
        forall|i: int, j: int|
            #![trigger cards[i], cards[j]]
            0 <= i < j < cards.len() ==> cards[i].message.reference() != cards[j].message.reference(),
    ensures
        ({
            let sorted = stable_sort(cards, newer_card());
            forall|i: int, j: int|
                #![trigger sorted[i], sorted[j]]
                0 <= i < j < sorted.len() ==> sorted[i].message.reference() != sorted[j].message.reference()
        }),
{
    broadcast use vstd::seq_lib::to_multiset_contains;

    let sorted = stable_sort(cards, newer_card());
    crate::lists::lemma_stable_sort(cards, newer_card());
    assert(cards.no_duplicates()) by {
        assert forall|i: int, j: int| 0 <= i < j < cards.len() implies cards[i] != cards[j] by {
            assert(cards[i].message.reference() != cards[j].message.reference());
        }
    }
    cards.lemma_multiset_has_no_duplicates();
    sorted.lemma_multiset_has_no_duplicates_conv();
    assert forall|i: int, j: int| #![trigger sorted[i], sorted[j]] 0 <= i < j < sorted.len() implies
        sorted[i].message.reference() != sorted[j].message.reference() by {
        assert(sorted[i] != sorted[j]);
        assert(sorted.contains(sorted[i]) && sorted.contains(sorted[j]));
        assert(cards.contains(sorted[i])) by {
            assert(sorted.to_multiset().count(sorted[i]) > 0);
        }
        assert(cards.contains(sorted[j])) by {
            assert(sorted.to_multiset().count(sorted[j]) > 0);
        }
        let a = choose|a: int| 0 <= a < cards.len() && cards[a] == sorted[i];
        let b = choose|b: int| 0 <= b < cards.len() && cards[b] == sorted[j];
        if a < b {
            assert(cards[a].message.reference() != cards[b].message.reference());
        } else {
            assert(cards[b].message.reference() != cards[a].message.reference());
        }
    }
}

} // verus!
