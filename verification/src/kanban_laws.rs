//! What holds of adding the columns of a name: the tags that lack one get one, once.
use crate::kanban::{column_of, empty_column, tag_key, AccountBoardStateView, TagColumnView};
use crate::kanban_columns::{
    board_added, board_with_key, boards_added, boards_with_key, fresh_ids, grown, matching_ids, tag_named, Boards,
};
use crate::model::TagView;
use vstd::prelude::*;

verus! {

/// Whether a tag of an account has a name of the key `key`, and no column.
pub open spec fn lacks_column(board: AccountBoardStateView, key: Seq<char>, id: Seq<char>) -> bool {
    &&& exists|t: int|
        0 <= t < board.tags.len() && (#[trigger] board.tags[t]).id == id && tag_key(board.tags[t].display_name) == key
    &&& forall|c: int| 0 <= c < board.columns.len() ==> (#[trigger] board.columns[c]).tag_id != id
}

/// Whether a tag of one of the accounts has a name of the key `key`, and no column.
pub open spec fn lacked(boards: Boards, key: Seq<char>, account: Seq<char>, id: Seq<char>) -> bool {
    exists|a: int|
        0 <= a < boards.len() && (#[trigger] boards[a]).0 == account && lacks_column(boards[a].1, key, id)
}

/// No account has two parts of the board.
pub open spec fn one_part_each(boards: Boards) -> bool {
    forall|a: int, b: int| 0 <= a < b < boards.len() ==> (#[trigger] boards[a]).0 != (#[trigger] boards[b]).0
}

/// The columns that tags get when they are added.
pub open spec fn new_columns(ids: Seq<Seq<char>>) -> Seq<TagColumnView> {
    ids.map_values(|id: Seq<char>| empty_column(id, true))
}

proof fn lemma_any_of_grown(columns: Seq<TagColumnView>, ids: Seq<Seq<char>>, id: Seq<char>)
    ensures
        (columns + new_columns(ids)).any(column_of(id)) <==> columns.any(column_of(id)) || ids.contains(id),
{
    let all = columns + new_columns(ids);
    if columns.any(column_of(id)) {
        let c = choose|c: int| 0 <= c < columns.len() && column_of(id)(columns[c]);
        assert(all[c] == columns[c]);
        assert(column_of(id)(all[c]));
    }
    if ids.contains(id) {
        let i = choose|i: int| 0 <= i < ids.len() && ids[i] == id;
        assert(all[columns.len() + i] == empty_column(id, true));
        assert(column_of(id)(all[columns.len() + i]));
    }
    if all.any(column_of(id)) {
        let c = choose|c: int| 0 <= c < all.len() && column_of(id)(all[c]);
        if c < columns.len() {
            assert(column_of(id)(columns[c]));
        } else {
            assert(all[c] == empty_column(ids[c - columns.len()], true));
            assert(ids[c - columns.len()] == id);
        }
    }
}

proof fn lemma_fresh(columns: Seq<TagColumnView>, ids: Seq<Seq<char>>)
    ensures
        grown(columns, ids) == columns + new_columns(fresh_ids(columns, ids)),
        fresh_ids(columns, ids).no_duplicates(),
        forall|id: Seq<char>| #[trigger]
            fresh_ids(columns, ids).contains(id) <==> ids.contains(id) && !columns.any(column_of(id)),
    decreases ids.len(),
{
    let fresh = fresh_ids(columns, ids);
    if ids.len() == 0 {
        assert(columns + new_columns(fresh) =~= columns);
    } else {
        let front = ids.drop_last();
        let before = fresh_ids(columns, front);
        let last = ids.last();
        lemma_fresh(columns, front);
        lemma_any_of_grown(columns, before, last);
        assert(front.push(last) =~= ids);
        assert forall|id: Seq<char>| ids.contains(id) <==> #[trigger] front.contains(id) || id == last by {
            crate::message_list::lemma_contains_push(front, last, id);
        }
        if !grown(columns, front).any(column_of(last)) {
            assert(fresh == before.push(last));
            assert(new_columns(fresh) =~= new_columns(before).push(empty_column(last, true)));
            assert(grown(columns, ids) =~= columns + new_columns(fresh));
            assert forall|id: Seq<char>| #[trigger]
                fresh.contains(id) <==> ids.contains(id) && !columns.any(column_of(id)) by {
                crate::message_list::lemma_contains_push(before, last, id);
                assert(before.contains(id) <==> front.contains(id) && !columns.any(column_of(id)));
            }
        } else {
            assert forall|id: Seq<char>| #[trigger]
                fresh.contains(id) <==> ids.contains(id) && !columns.any(column_of(id)) by {
                assert(before.contains(id) <==> front.contains(id) && !columns.any(column_of(id)));
            }
        }
    }
}

proof fn lemma_matching(tags: Seq<TagView>, key: Seq<char>, id: Seq<char>)
    ensures
        matching_ids(tags, key).contains(id) <==> exists|t: int|
            0 <= t < tags.len() && (#[trigger] tags[t]).id == id && tag_key(tags[t].display_name) == key,
    decreases tags.len(),
{
    reveal(Seq::filter);
    let ids = matching_ids(tags, key);
    if tags.len() == 0 {
        assert(ids =~= Seq::<Seq<char>>::empty());
    } else {
        let front = tags.drop_last();
        let last = tags.last();
        lemma_matching(front, key, id);
        let before = front.filter(tag_named(key));
        assert(forall|t: int| 0 <= t < front.len() ==> front[t] == #[trigger] tags[t]);
        assert(tags[tags.len() - 1] == last);
        if tag_named(key)(last) {
            assert(ids =~= matching_ids(front, key).push(last.id));
            crate::message_list::lemma_contains_push(matching_ids(front, key), last.id, id);
        } else {
            assert(ids == matching_ids(front, key));
        }
        if exists|t: int| 0 <= t < front.len() && (#[trigger] front[t]).id == id && tag_key(front[t].display_name) == key {
            let t = choose|t: int|
                0 <= t < front.len() && (#[trigger] front[t]).id == id && tag_key(front[t].display_name) == key;
            assert(tags[t].id == id);
        }
    }
}

proof fn lemma_board_added(board: AccountBoardStateView, key: Seq<char>)
    ensures
        ({
            let fresh = fresh_ids(board.columns, matching_ids(board.tags, key));
            &&& fresh.no_duplicates()
            &&& forall|id: Seq<char>| #[trigger] fresh.contains(id) <==> lacks_column(board, key, id)
            &&& board_with_key(board, key).columns == board.columns + new_columns(fresh)
        }),
{
    let ids = matching_ids(board.tags, key);
    let fresh = fresh_ids(board.columns, ids);
    lemma_fresh(board.columns, ids);
    assert forall|id: Seq<char>| #[trigger] fresh.contains(id) <==> lacks_column(board, key, id) by {
        lemma_matching(board.tags, key, id);
        if !board.columns.any(column_of(id)) {
            assert forall|c: int| 0 <= c < board.columns.len() implies (#[trigger] board.columns[c]).tag_id != id by {
                assert(!column_of(id)(board.columns[c]));
            }
        }
    }
}

proof fn lemma_boards_added(boards: Boards, key: Seq<char>)
    ensures
        forall|account: Seq<char>, id: Seq<char>| #[trigger]
            boards_added(boards, key).contains((account, id)) <==> lacked(boards, key, account, id),
        one_part_each(boards) ==> boards_added(boards, key).no_duplicates(),
    decreases boards.len(),
{
    let added = boards_added(boards, key);
    if boards.len() > 0 {
        let front = boards.drop_last();
        let (owner, board) = boards.last();
        let before = boards_added(front, key);
        let fresh = fresh_ids(board.columns, matching_ids(board.tags, key));
        let own = board_added(owner, board, key);
        lemma_boards_added(front, key);
        lemma_board_added(board, key);
        assert(boards[boards.len() - 1] == (owner, board));
        assert forall|account: Seq<char>, id: Seq<char>| #[trigger]
            added.contains((account, id)) <==> lacked(boards, key, account, id) by {
            let pair = (account, id);
            if added.contains(pair) {
                let i = choose|i: int| 0 <= i < added.len() && added[i] == pair;
                if i < before.len() {
                    assert(before[i] == pair);
                    assert(before.contains(pair));
                    let a = choose|a: int|
                        0 <= a < front.len() && (#[trigger] front[a]).0 == account && lacks_column(front[a].1, key, id);
                    assert(boards[a] == front[a]);
                } else {
                    assert(own[i - before.len()] == pair);
                    assert(fresh.contains(fresh[i - before.len()]));
                }
            }
            if lacked(boards, key, account, id) {
                let a = choose|a: int|
                    0 <= a < boards.len() && (#[trigger] boards[a]).0 == account && lacks_column(boards[a].1, key, id);
                if a < front.len() {
                    assert(front[a] == boards[a]);
                    assert(before.contains(pair));
                    let i = choose|i: int| 0 <= i < before.len() && before[i] == pair;
                    assert(added[i] == pair);
                } else {
                    assert(fresh.contains(id));
                    let i = choose|i: int| 0 <= i < fresh.len() && fresh[i] == id;
                    assert(added[before.len() + i] == own[i]);
                }
            }
        }
        if one_part_each(boards) {
            assert(one_part_each(front)) by {
                assert forall|a: int, b: int| 0 <= a < b < front.len() implies (#[trigger] front[a]).0 != (
                #[trigger] front[b]).0 by {
                    assert(boards[a] == front[a] && boards[b] == front[b]);
                }
            }
            assert forall|i: int| 0 <= i < before.len() implies (#[trigger] before[i]).0 != owner by {
                let pair = (before[i].0, before[i].1);
                assert(before.contains(pair));
                let a = choose|a: int|
                    0 <= a < front.len() && (#[trigger] front[a]).0 == pair.0 && lacks_column(front[a].1, key, pair.1);
                assert(boards[a] == front[a]);
            }
            assert(forall|i: int| 0 <= i < own.len() ==> #[trigger] own[i] == (owner, fresh[i]));
            assert(added.no_duplicates());
        }
    }
}

/// Adding a name gives a column to exactly those tags of that name that have none, and
/// lists each of them once. The new columns stand behind the ones that were there, which
/// stay as they are, and wait for their messages.
pub proof fn law_the_missing_columns_are_added(boards: Boards, key: Seq<char>)
    ensures
        forall|account: Seq<char>, id: Seq<char>| #[trigger]
            boards_added(boards, key).contains((account, id)) <==> lacked(boards, key, account, id),
        one_part_each(boards) ==> boards_added(boards, key).no_duplicates(),
        boards_with_key(boards, key).len() == boards.len(),
        forall|a: int|
            0 <= a < boards.len() ==> {
                let (account, before) = boards[a];
                let (owner, after) = #[trigger] boards_with_key(boards, key)[a];
                let ids = fresh_ids(before.columns, matching_ids(before.tags, key));
                &&& owner == account
                &&& after == (AccountBoardStateView { columns: before.columns + new_columns(ids), ..before })
                &&& ids.no_duplicates()
                &&& forall|id: Seq<char>| #[trigger] ids.contains(id) <==> lacks_column(before, key, id)
            },
{
    lemma_boards_added(boards, key);
    assert forall|a: int| 0 <= a < boards.len() implies {
        let (account, before) = boards[a];
        let (owner, after) = #[trigger] boards_with_key(boards, key)[a];
        let ids = fresh_ids(before.columns, matching_ids(before.tags, key));
        &&& owner == account
        &&& after == (AccountBoardStateView { columns: before.columns + new_columns(ids), ..before })
        &&& ids.no_duplicates()
        &&& forall|id: Seq<char>| #[trigger] ids.contains(id) <==> lacks_column(before, key, id)
    } by {
        lemma_board_added(boards[a].1, key);
    }
}

/// A name that was added has nothing more to add: a second time no tag gets a column, and
/// the board stays as it is.
pub proof fn law_a_name_is_added_once(boards: Boards, key: Seq<char>)
    ensures
        boards_added(boards_with_key(boards, key), key) == Seq::<(Seq<char>, Seq<char>)>::empty(),
        boards_with_key(boards_with_key(boards, key), key) == boards_with_key(boards, key),
{
    let once = boards_with_key(boards, key);
    let added = boards_added(once, key);
    assert forall|a: int, id: Seq<char>| 0 <= a < once.len() implies !#[trigger] lacks_column(
        once[a].1,
        key,
        id,
    ) by {
        lemma_nothing_lacks(boards[a].1, key, id);
    }
    lemma_boards_added(once, key);
    if added.len() > 0 {
        let pair = (added[0].0, added[0].1);
        assert(added.contains(pair));
        assert(lacked(once, key, pair.0, pair.1));
    }
    assert(added =~= Seq::<(Seq<char>, Seq<char>)>::empty());
    assert forall|a: int| 0 <= a < once.len() implies boards_with_key(once, key)[a] == once[a] by {
        let board = once[a].1;
        let fresh = fresh_ids(board.columns, matching_ids(board.tags, key));
        lemma_board_added(board, key);
        if fresh.len() > 0 {
            assert(fresh.contains(fresh[0]));
            assert(lacks_column(once[a].1, key, fresh[0]));
        }
        assert(board.columns + new_columns(fresh) =~= board.columns);
    }
    assert(boards_with_key(once, key) =~= once);
}

/// No tag lacks its column once it was added.
proof fn lemma_nothing_lacks(board: AccountBoardStateView, key: Seq<char>, id: Seq<char>)
    ensures
        !lacks_column(board_with_key(board, key), key, id),
{
    let after = board_with_key(board, key);
    let fresh = fresh_ids(board.columns, matching_ids(board.tags, key));
    lemma_board_added(board, key);
    if lacks_column(after, key, id) {
        assert forall|c: int| 0 <= c < board.columns.len() implies (#[trigger] board.columns[c]).tag_id != id by {
            assert(after.columns[c] == board.columns[c]);
        }
        assert(fresh.contains(id));
        let i = choose|i: int| 0 <= i < fresh.len() && fresh[i] == id;
        assert(after.columns[board.columns.len() + i].tag_id == id);
    }
}

} // verus!
