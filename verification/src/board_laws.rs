//! What changes of the board mean for its columns and cards.
use crate::dispatch::{Evt, TagEvt};
use crate::kanban::{
    column_of, column_of_other, column_title, tag_key, AccountBoardStateView, CardDragView, MergedCardView, MergedColumnView, TagColumnView,
};
use crate::kanban_columns::{
    board_without_key, card_of, joined, matching_ids, merged_has_key, placed, with_cards, AvailableTagView,
};
use crate::kanban_pane::{
    add_column_lines, board_loading, drop_tag, note_of, pending_tags, put_into, taken_from, AddColumnLineView, ColumnNote,
};
use crate::lists::{first_index, lemma_first_index, lemma_first_index_is};
use crate::mail_laws::lemma_kept;
use crate::model::{AccountId, MessageHeader, MessageHeaderView, Tag};
use crate::state::{AviaryApp, EffectView};
use crate::tag_events::tags_of;
use vstd::prelude::*;

verus! {

/// Whether a board has a column of a tag.
pub open spec fn has_column(board: AccountBoardStateView, tag_id: Seq<char>) -> bool {
    exists|i: int| 0 <= i < board.columns.len() && (#[trigger] board.columns[i]).tag_id == tag_id
}

/// A column that is added is there, behind the others, which stay; one that is taken off is
/// gone, and the others stay.
pub proof fn law_columns_come_and_go(board: AccountBoardStateView, tag_id: Seq<char>)
    ensures
        has_column(board.with_column(tag_id), tag_id),
        board.columns.is_prefix_of(board.with_column(tag_id).columns),
        has_column(board, tag_id) ==> board.with_column(tag_id) == board,
        !has_column(board, tag_id) ==> board.with_column(tag_id).columns.len() == board.columns.len() + 1
            && board.with_column(tag_id).columns.last().messages.len() == 0,
        !has_column(board.without_column(tag_id), tag_id),
        forall|x: TagColumnView| #[trigger]
            board.without_column(tag_id).columns.contains(x) <==> board.columns.contains(x) && x.tag_id != tag_id,
        board.with_column(tag_id).tags == board.tags,
        board.without_column(tag_id).tags == board.tags,
{
    let p = column_of(tag_id);
    let with = board.with_column(tag_id);
    lemma_kept(board.columns, column_of_other(tag_id));
    if board.columns.any(p) {
        let i = choose|i: int| 0 <= i < board.columns.len() && p(#[trigger] board.columns[i]);
        assert(board.columns[i].tag_id == tag_id);
    } else {
        assert(with.columns[board.columns.len() as int].tag_id == tag_id);
        if has_column(board, tag_id) {
            let i = choose|i: int| 0 <= i < board.columns.len() && (#[trigger] board.columns[i]).tag_id == tag_id;
            assert(p(board.columns[i]));
        }
    }
    let without = board.without_column(tag_id);
    if has_column(without, tag_id) {
        let i = choose|i: int| 0 <= i < without.columns.len() && (#[trigger] without.columns[i]).tag_id == tag_id;
        assert(without.columns.contains(without.columns[i]));
    }
}

/// The messages of a tag that came are those of its column, which no longer waits; a column
/// that is to be loaded waits. Other columns stay as they are.
pub proof fn law_columns_hold_what_came(
    board: AccountBoardStateView,
    tag_id: Seq<char>,
    messages: Seq<MessageHeaderView>,
    i: int,
)
    requires
        0 <= i < board.columns.len(),
    ensures
        board.with_messages(tag_id, messages).columns.len() == board.columns.len(),
        board.with_loading(tag_id).columns.len() == board.columns.len(),
        board.columns[i].tag_id != tag_id ==> board.with_messages(tag_id, messages).columns[i] == board.columns[i]
            && board.with_loading(tag_id).columns[i] == board.columns[i],
        board.columns[i].tag_id == tag_id && (forall|j: int| 0 <= j < i ==> (#[trigger] board.columns[j]).tag_id != tag_id)
            ==> {
            let filled = board.with_messages(tag_id, messages).columns[i];
            let waiting = board.with_loading(tag_id).columns[i];
            &&& filled.tag_id == tag_id && filled.messages == messages && filled.loaded && !filled.loading
            &&& waiting == (TagColumnView { loading: true, ..board.columns[i] })
        },
        board.with_messages(tag_id, messages).tags == board.tags,
        board.with_loading(tag_id).tags == board.tags,
{
    lemma_first_index(board.columns, column_of(tag_id));
    if board.columns[i].tag_id == tag_id && forall|j: int| 0 <= j < i ==> (#[trigger] board.columns[j]).tag_id != tag_id {
        lemma_first_index_is(board.columns, column_of(tag_id), i);
    }
}

/// The messages of a tag fill its column on the board of its account, and no other account's
/// part changes.
pub proof fn law_listings_fill_their_column(
    before: AviaryApp,
    after: AviaryApp,
    account_id: AccountId,
    tag_id: String,
    messages: Vec<MessageHeader>,
)
    requires
        before.event_done(after, Evt::Tag(TagEvt::TagListing { account_id, tag_id, messages })),
    ensures
        before.kanban.board(account_id.0@) is Some ==> {
            let was = before.kanban.board(account_id.0@)->0;
            let now = after.kanban.board(account_id.0@)->0;
            &&& after.kanban.board(account_id.0@) is Some
            &&& now.columns.len() == was.columns.len()
            &&& forall|i: int|
                0 <= i < was.columns.len() && (#[trigger] was.columns[i]).tag_id != tag_id@ ==> now.columns[i]
                    == was.columns[i]
            &&& forall|i: int|
                0 <= i < was.columns.len() && (#[trigger] was.columns[i]).tag_id == tag_id@ && (forall|j: int|
                    0 <= j < i ==> (#[trigger] was.columns[j]).tag_id != tag_id@) ==> now.columns[i].messages
                    == messages.deep_view() && now.columns[i].loaded && !now.columns[i].loading
        },
        forall|other: Seq<char>|
            other != account_id.0@ ==> #[trigger] after.kanban.board(other) == before.kanban.board(other),
        after.kanban.merged_cache is None,
        after.mailbox == before.mailbox,
        after.effects == before.effects,
{
    if before.kanban.board(account_id.0@) is Some {
        let was = before.kanban.board(account_id.0@)->0;
        assert forall|i: int| 0 <= i < was.columns.len() implies #[trigger] was.columns[i].tag_id != tag_id@
            ==> was.with_messages(tag_id@, messages.deep_view()).columns[i] == was.columns[i] by {
            law_columns_hold_what_came(was, tag_id@, messages.deep_view(), i);
        }
        assert forall|i: int|
            0 <= i < was.columns.len() && (#[trigger] was.columns[i]).tag_id == tag_id@ && (forall|j: int|
                0 <= j < i ==> (#[trigger] was.columns[j]).tag_id != tag_id@) implies was.with_messages(
            tag_id@,
            messages.deep_view(),
        ).columns[i].messages == messages.deep_view() by {
            law_columns_hold_what_came(was, tag_id@, messages.deep_view(), i);
        }
        lemma_first_index(was.columns, column_of(tag_id@));
    }
    assert forall|other: Seq<char>| other != account_id.0@ implies #[trigger] after.kanban.board(other)
        == before.kanban.board(other) by {
        let was = before.kanban.accounts@.remove(account_id.0@);
        let now = after.kanban.accounts@.remove(account_id.0@);
        if before.kanban.board(account_id.0@) is Some {
            assert(was == now);
            assert(was.contains_key(other) == before.kanban.accounts@.contains_key(other));
            assert(now.contains_key(other) == after.kanban.accounts@.contains_key(other));
            if was.contains_key(other) {
                assert(was[other] == before.kanban.accounts@[other]);
                assert(now[other] == after.kanban.accounts@[other]);
            }
        }
    }
}

/// A tag that was created is a tag of its account, behind the others, and has a column that
/// is being loaded; the settings keep that column.
pub proof fn law_created_tags_get_a_column(before: AviaryApp, after: AviaryApp, account_id: AccountId, tag: Tag)
    requires
        before.event_done(after, Evt::Tag(TagEvt::TagCreated { account_id, tag })),
    ensures
        ({
            let was = tags_of(before.tags.by_account, account_id.0@);
            let now = tags_of(after.tags.by_account, account_id.0@);
            &&& now == was.push(tag.deep_view())
            &&& forall|other: Seq<char>|
                other != account_id.0@ ==> #[trigger] tags_of(after.tags.by_account, other) == tags_of(
                    before.tags.by_account,
                    other,
                )
        }),
        after.kanban.board(account_id.0@) is Some,
        has_column(after.kanban.board(account_id.0@)->0, tag.id@),
        after.settings.account_view(account_id.0@).kanban_tag_columns.contains(tag.id@),
        ({
            let effects = after.effects.deep_view();
            let n = before.effects.deep_view().len() as int;
            &&& effects.len() == n + 3
            &&& effects[n] == EffectView::SaveSettings
            &&& effects[n + 1] == (EffectView::LoadTagListing { account_id: account_id.0@, tag_id: tag.id@, limit: 50 })
        }),
{
    let part = before.board_with_tag(account_id.0@, tag.deep_view());
    let bare = AccountBoardStateView {
        tags: tags_of(before.tags.by_account, account_id.0@).push(tag.deep_view()),
        ..crate::tag_events::board_or_new(
            before.kanban.board(account_id.0@),
            before.configured_columns(account_id.0@),
        )
    };
    law_columns_come_and_go(bare, tag.id@);
    let with = bare.with_column(tag.id@);
    lemma_first_index(with.columns, column_of(tag.id@));
    let i = choose|i: int| 0 <= i < with.columns.len() && (#[trigger] with.columns[i]).tag_id == tag.id@;
    assert(with.with_loading(tag.id@).columns[i].tag_id == tag.id@);
    assert(part == with.with_loading(tag.id@));
    assert(part.columns[i].tag_id == tag.id@);
    assert(has_column(part, tag.id@));
    assert(part.column_ids()[i] == tag.id@);
}

/// A card that is dropped goes to the tag of its own account behind the column, and to no
/// other: nowhere if there is none, or if it comes from there.
pub proof fn law_cards_go_to_a_tag_of_their_account(
    targets: Seq<crate::kanban::MergedTagTargetView>,
    drag: CardDragView,
)
    ensures
        match drop_tag(targets, drag) {
            Some(tag_id) => tag_id != drag.source_tag_id && exists|i: int|
                0 <= i < targets.len() && (#[trigger] targets[i]).account_id == drag.account_id && targets[i].tag_id
                    == tag_id,
            None => (forall|i: int| 0 <= i < targets.len() ==> (#[trigger] targets[i]).account_id != drag.account_id) || (
            exists|i: int|
                0 <= i < targets.len() && (#[trigger] targets[i]).account_id == drag.account_id && targets[i].tag_id
                    == drag.source_tag_id),
        },
{
    let p = crate::kanban_pane::target_of(drag.account_id);
    lemma_first_index(targets, p);
    match first_index(targets, p) {
        Some(i) => {
            assert(p(targets[i]));
            assert(targets[i].account_id == drag.account_id);
        },
        None => {
            assert forall|i: int| 0 <= i < targets.len() implies (#[trigger] targets[i]).account_id != drag.account_id by {
                assert(!p(targets[i]));
            }
        },
    }
}

/// A card that moves leaves the others where they are: those of the column that it leaves,
/// and those of the column that it comes to, behind it.
pub proof fn law_moving_a_card_moves_no_other(
    columns: Seq<TagColumnView>,
    tag_id: Seq<char>,
    id: Seq<char>,
    message: MessageHeaderView,
    i: int,
)
    requires
        0 <= i < columns.len(),
    ensures
        columns[i].tag_id != tag_id ==> taken_from(columns, tag_id, id)[i] == columns[i] && put_into(
            columns,
            tag_id,
            message,
        )[i] == columns[i],
        forall|x: MessageHeaderView|
            x.id != id ==> (#[trigger] taken_from(columns, tag_id, id)[i].messages.contains(x)
                <==> columns[i].messages.contains(x)),
        forall|x: MessageHeaderView|
            columns[i].messages.contains(x) ==> #[trigger] put_into(columns, tag_id, message)[i].messages.contains(x),
        taken_from(columns, tag_id, id).len() == columns.len(),
        put_into(columns, tag_id, message).len() == columns.len(),
{
    lemma_first_index(columns, column_of(tag_id));
    lemma_kept(columns[i].messages, crate::headers::other_message_id(id));
    let put = put_into(columns, tag_id, message);
    assert forall|x: MessageHeaderView| columns[i].messages.contains(x) implies #[trigger] put[i].messages.contains(x) by {
        let k = choose|k: int| 0 <= k < columns[i].messages.len() && columns[i].messages[k] == x;
        if put[i] == columns[i] {
            assert(put[i].messages[k] == x);
        } else {
            assert(put[i].messages[k + 1] == x);
        }
    }
}

/// Columns that are neither loaded nor on their way are asked for, and no others are; then
/// every column is loaded or on its way, with the messages that it had.
pub proof fn law_missing_columns_are_asked_for(board: AccountBoardStateView)
    ensures
        forall|id: Seq<char>| #[trigger]
            pending_tags(board.columns).contains(id) <==> exists|i: int|
                0 <= i < board.columns.len() && (#[trigger] board.columns[i]).tag_id == id && !board.columns[i].loaded
                    && !board.columns[i].loading,
        board_loading(board).columns.len() == board.columns.len(),
        forall|i: int|
            0 <= i < board.columns.len() ==> {
                let now = #[trigger] board_loading(board).columns[i];
                &&& now.loaded || now.loading
                &&& now == (TagColumnView { loading: now.loading, ..board.columns[i] })
            },
{
    let columns = board.columns;
    let p = crate::kanban_pane::unloaded();
    let tags = pending_tags(columns);
    let kept = columns.filter(p);
    lemma_kept(columns, p);
    assert forall|id: Seq<char>| #[trigger] tags.contains(id) <==> exists|i: int|
        0 <= i < columns.len() && (#[trigger] columns[i]).tag_id == id && !columns[i].loaded && !columns[i].loading by {
        if tags.contains(id) {
            let k = choose|k: int| 0 <= k < tags.len() && tags[k] == id;
            assert(kept.contains(kept[k]));
            let i = choose|i: int| 0 <= i < columns.len() && columns[i] == kept[k];
            assert(columns[i].tag_id == id);
        }
        if exists|i: int|
            0 <= i < columns.len() && (#[trigger] columns[i]).tag_id == id && !columns[i].loaded && !columns[i].loading {
            let i = choose|i: int|
                0 <= i < columns.len() && (#[trigger] columns[i]).tag_id == id && !columns[i].loaded
                    && !columns[i].loading;
            assert(columns.contains(columns[i]));
            assert(kept.contains(columns[i]));
            let k = choose|k: int| 0 <= k < kept.len() && kept[k] == columns[i];
            assert(tags[k] == id);
        }
    }
    assert forall|i: int| 0 <= i < columns.len() implies ({
        let now = #[trigger] board_loading(board).columns[i];
        &&& now.loaded || now.loading
        &&& now == (TagColumnView { loading: now.loading, ..columns[i] })
    }) by {
        if !columns[i].loaded && !columns[i].loading {
            assert(tags.contains(columns[i].tag_id));
        }
    }
}

proof fn lemma_with_cards(cards: Seq<MergedCardView>, tag_id: Seq<char>, messages: Seq<MessageHeaderView>)
    ensures
        cards.is_prefix_of(with_cards(cards, tag_id, messages)),
        forall|i: int|
            0 <= i < messages.len() ==> has_card(with_cards(cards, tag_id, messages), #[trigger] messages[i]),
        forall|i: int|
            cards.len() <= i < with_cards(cards, tag_id, messages).len() ==> messages.contains(
                (#[trigger] with_cards(cards, tag_id, messages)[i]).message,
            ) && with_cards(cards, tag_id, messages)[i].source_tag_id == tag_id,
    decreases messages.len(),
{
    let all = with_cards(cards, tag_id, messages);
    if messages.len() > 0 {
        let init = messages.drop_last();
        let front = with_cards(cards, tag_id, init);
        let p = card_of(messages.last().reference());
        lemma_with_cards(cards, tag_id, init);
        assert(front.is_prefix_of(all));
        assert forall|i: int| 0 <= i < messages.len() implies has_card(all, #[trigger] messages[i]) by {
            if i < init.len() {
                assert(init[i] == messages[i]);
                let k = choose|k: int|
                    0 <= k < front.len() && (#[trigger] front[k]).message.reference() == init[i].reference();
                assert(all[k] == front[k]);
            } else if front.any(p) {
                let k = choose|k: int| 0 <= k < front.len() && p(#[trigger] front[k]);
                assert(all[k].message.reference() == messages[i].reference());
            } else {
                assert(all[front.len() as int].message == messages.last());
            }
        }
        assert forall|i: int| cards.len() <= i < all.len() implies messages.contains((#[trigger] all[i]).message)
            && all[i].source_tag_id == tag_id by {
            if i < front.len() {
                assert(all[i] == front[i]);
                let k = choose|k: int| 0 <= k < init.len() && init[k] == front[i].message;
                assert(messages[k] == all[i].message);
            } else {
                assert(messages[messages.len() - 1] == all[i].message);
            }
        }
    }
}

/// Whether cards hold one of a message.
pub open spec fn has_card(cards: Seq<MergedCardView>, message: MessageHeaderView) -> bool {
    exists|i: int| 0 <= i < cards.len() && (#[trigger] cards[i]).message.reference() == message.reference()
}

/// A shared column takes a column of an account in: it stands for the tag of that column
/// too, has a card for each of its messages besides those that it had, and is loaded only
/// where both are.
pub proof fn law_shared_columns_take_columns_in(shared: MergedColumnView, account: Seq<char>, column: TagColumnView)
    ensures
        ({
            let after = joined(shared, account, column);
            &&& after.key == shared.key && after.title == shared.title
            &&& exists|i: int|
                0 <= i < after.targets.len() && (#[trigger] after.targets[i]).account_id == account
                    && after.targets[i].tag_id == column.tag_id
            &&& shared.targets.is_prefix_of(after.targets)
            &&& shared.cards.is_prefix_of(after.cards)
            &&& forall|i: int| 0 <= i < column.messages.len() ==> has_card(after.cards, #[trigger] column.messages[i])
            &&& forall|i: int|
                shared.cards.len() <= i < after.cards.len() ==> column.messages.contains(
                    (#[trigger] after.cards[i]).message,
                )
            &&& after.loaded == (shared.loaded && column.loaded)
        }),
{
    let after = joined(shared, account, column);
    let target = crate::kanban::MergedTagTargetView { account_id: account, tag_id: column.tag_id };
    lemma_with_cards(shared.cards, column.tag_id, column.messages);
    if shared.targets.contains(target) {
        let i = choose|i: int| 0 <= i < shared.targets.len() && shared.targets[i] == target;
        assert(after.targets[i].account_id == account);
    } else {
        assert(after.targets[shared.targets.len() as int].account_id == account);
    }
}

/// Columns of one name go into one shared column, whatever account they are of: the first
/// gives it its title, the others join it, and no other shared column changes.
pub proof fn law_columns_of_one_name_are_shared(
    merged: Seq<MergedColumnView>,
    account: Seq<char>,
    title: Seq<char>,
    column: TagColumnView,
)
    ensures
        ({
            let after = placed(merged, account, title, column);
            &&& forall|i: int|
                0 <= i < merged.len() && (#[trigger] merged[i]).key != tag_key(title) ==> after[i] == merged[i]
            &&& exists|i: int|
                0 <= i < after.len() && (#[trigger] after[i]).key == tag_key(title)
            &&& (forall|i: int| 0 <= i < merged.len() ==> (#[trigger] merged[i]).key != tag_key(title)) ==> after.len()
                == merged.len() + 1 && after.last().title == title && after.last().key == tag_key(title)
            &&& (exists|i: int| 0 <= i < merged.len() && (#[trigger] merged[i]).key == tag_key(title)) ==> after.len()
                == merged.len()
        }),
{
    let after = placed(merged, account, title, column);
    let p = merged_has_key(tag_key(title));
    lemma_first_index(merged, p);
    match first_index(merged, p) {
        Some(i) => {
            assert(p(merged[i]));
            assert(after[i].key == tag_key(title));
        },
        None => {
            assert(after[merged.len() as int].key == tag_key(title));
            assert forall|i: int| 0 <= i < merged.len() implies (#[trigger] merged[i]).key != tag_key(title) by {
                assert(!p(merged[i]));
            }
        },
    }
}

/// A column says that it is loading until all of it is there, and that it is empty where
/// nothing came.
pub proof fn law_columns_say_why_they_are_empty(column: MergedColumnView)
    ensures
        !column.loaded <==> note_of(column) == ColumnNote::Loading,
        column.loaded && column.cards.len() == 0 <==> note_of(column) == ColumnNote::Empty,
        column.loaded && column.cards.len() > 0 <==> note_of(column) == ColumnNote::Nothing,
{
}

/// The menu that adds a column offers every tag that has none, in order, and always to make
/// a new one.
pub proof fn law_the_menu_offers_tags_without_columns(tags: Seq<AvailableTagView>)
    ensures
        forall|i: int|
            0 <= i < tags.len() ==> #[trigger] add_column_lines(tags)[i] == (AddColumnLineView::Existing {
                key: tags[i].key,
                title: tags[i].title,
                color: tags[i].color,
            }),
        add_column_lines(tags).last() == AddColumnLineView::Create,
        add_column_lines(tags).len() == tags.len() + (if tags.len() > 0 {
            2int
        } else {
            1int
        }),
{
}

/// A column that is hidden goes with every tag of its name, and with no other.
pub proof fn law_hidden_columns_are_those_of_the_name(board: AccountBoardStateView, key: Seq<char>)
    ensures
        forall|x: TagColumnView| #[trigger]
            board_without_key(board, key).columns.contains(x) <==> board.columns.contains(x) && !(exists|k: int|
                0 <= k < board.tags.len() && (#[trigger] board.tags[k]).id == x.tag_id && tag_key(
                    board.tags[k].display_name,
                ) == key),
        board_without_key(board, key).tags == board.tags,
{
    let ids = matching_ids(board.tags, key);
    let p = crate::kanban_columns::tag_named(key);
    let kept = board.tags.filter(p);
    lemma_kept(board.tags, p);
    lemma_kept(board.columns, crate::kanban_columns::column_outside(ids));
    assert forall|id: Seq<char>| #[trigger] ids.contains(id) <==> exists|k: int|
        0 <= k < board.tags.len() && (#[trigger] board.tags[k]).id == id && tag_key(board.tags[k].display_name) == key by {
        if ids.contains(id) {
            let i = choose|i: int| 0 <= i < ids.len() && ids[i] == id;
            assert(kept.contains(kept[i]));
            let k = choose|k: int| 0 <= k < board.tags.len() && board.tags[k] == kept[i];
            assert(board.tags[k].id == id);
        }
        if exists|k: int|
            0 <= k < board.tags.len() && (#[trigger] board.tags[k]).id == id && tag_key(board.tags[k].display_name)
                == key {
            let k = choose|k: int|
                0 <= k < board.tags.len() && (#[trigger] board.tags[k]).id == id && tag_key(
                    board.tags[k].display_name,
                ) == key;
            assert(board.tags.contains(board.tags[k]));
            assert(kept.contains(board.tags[k]));
            let i = choose|i: int| 0 <= i < kept.len() && kept[i] == board.tags[k];
            assert(ids[i] == id);
        }
    }
}

/// The title of a column is the name of its tag, and its id where the tag is not known.
pub proof fn law_columns_go_by_their_tag(board: AccountBoardStateView, column: TagColumnView)
    ensures
        (exists|i: int|
            0 <= i < board.tags.len() && (#[trigger] board.tags[i]).id == column.tag_id && column_title(board, column)
                == board.tags[i].display_name) || ((forall|i: int|
            0 <= i < board.tags.len() ==> (#[trigger] board.tags[i]).id != column.tag_id) && column_title(board, column)
            == column.tag_id),
{
    let p = crate::kanban::tag_has_id(column.tag_id);
    lemma_first_index(board.tags, p);
    match first_index(board.tags, p) {
        Some(i) => {
            assert(p(board.tags[i]));
            assert(board.tags[i].id == column.tag_id);
        },
        None => {
            assert forall|i: int| 0 <= i < board.tags.len() implies (#[trigger] board.tags[i]).id != column.tag_id by {
                assert(!p(board.tags[i]));
            }
        },
    }
}

} // verus!
