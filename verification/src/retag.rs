//! A tag that goes by another name on the messages at hand.
use crate::kanban::{AccountBoardStateView, BoardState, TagColumn, TagColumnView};
use crate::lists::{distinct, lemma_distinct, lemma_distinct_of_no_duplicates, map_each, take_list};
use crate::list_entries::holds_text;
use crate::mailbox_events::in_results;
use crate::model::{AccountId, MessageHeader, MessageHeaderView};
use crate::reading::{in_body, in_selected, in_tab, map_bodies, map_selected, map_tabs};
use crate::folder_events::{swap_text, swapped};
use crate::state::{
    AviaryApp, MailboxState, Message, MessageView, SearchState, SenderHistoryState, SenderHistoryStateView, SentMessage,
    SentMessageView, SentState, ViewerState,
};
use vstd::prelude::*;

verus! {

/// The tags of a message after one of them got another name: each tag once.
pub open spec fn replaced_tags(tags: Seq<Seq<char>>, from: Seq<char>, to: Seq<char>) -> Seq<Seq<char>> {
    distinct(tags.map_values(swapped(from, to)))
}

/// A header of an account after one of its tags got another name.
pub open spec fn retagged_header(account_id: Seq<char>, from: Seq<char>, to: Seq<char>) -> spec_fn(
    MessageHeaderView,
) -> MessageHeaderView {
    |header: MessageHeaderView|
        if header.account_id == account_id {
            MessageHeaderView { tags: replaced_tags(header.tags, from, to), ..header }
        } else {
            header
        }
}

/// A message of an account after one of its tags got another name.
pub open spec fn retagged_message(account_id: Seq<char>, from: Seq<char>, to: Seq<char>) -> spec_fn(MessageView) -> MessageView {
    |message: MessageView|
        if message.header.account_id == account_id {
            MessageView {
                header: retagged_header(account_id, from, to)(message.header),
                tags: replaced_tags(message.tags, from, to),
                ..message
            }
        } else {
            message
        }
}

/// A reply or forward after `f`.
pub open spec fn in_sent(f: spec_fn(MessageView) -> MessageView) -> spec_fn(SentMessageView) -> SentMessageView {
    |sent: SentMessageView| SentMessageView { message: f(sent.message), ..sent }
}

/// The replies and forwards of a message after `f`.
pub open spec fn in_sent_list(f: spec_fn(MessageView) -> MessageView) -> spec_fn((Seq<char>, Seq<SentMessageView>)) -> (
    Seq<char>,
    Seq<SentMessageView>,
) {
    |entry: (Seq<char>, Seq<SentMessageView>)| (entry.0, entry.1.map_values(in_sent(f)))
}

/// The history after `f`.
pub open spec fn in_history(
    state: SenderHistoryStateView,
    f: spec_fn(MessageHeaderView) -> MessageHeaderView,
) -> SenderHistoryStateView {
    match state {
        SenderHistoryStateView::Loaded { email, messages, next, loading_more } => SenderHistoryStateView::Loaded {
            email,
            messages: messages.map_values(f),
            next,
            loading_more,
        },
        other => other,
    }
}

/// A conversation after `f`.
pub open spec fn in_thread(
    thread: Option<(Seq<char>, Seq<MessageHeaderView>)>,
    f: spec_fn(MessageHeaderView) -> MessageHeaderView,
) -> Option<(Seq<char>, Seq<MessageHeaderView>)> {
    match thread {
        Some((id, headers)) => Some((id, headers.map_values(f))),
        None => None,
    }
}

/// A column after `f`.
pub open spec fn in_column(f: spec_fn(MessageHeaderView) -> MessageHeaderView) -> spec_fn(TagColumnView) -> TagColumnView {
    |column: TagColumnView| TagColumnView { messages: column.messages.map_values(f), ..column }
}

/// Gives a tag another name, and keeps each tag once.
pub fn replace_tag_value(tags: &mut Vec<String>, old_tag: &String, new_tag: &String)
    ensures
        final(tags).deep_view() == replaced_tags(old(tags).deep_view(), old_tag@, new_tag@),
{
    swap_text(tags, old_tag, new_tag);
    let ghost all = tags.deep_view();
    let taken = take_list(tags);
    let ghost raw = taken@;
    let mut kept: Vec<String> = Vec::new();
    assert(kept.deep_view() =~= distinct(all.take(0)));
    for tag in iter: taken.into_iter()
        invariant
            iter.seq() == raw,
            all.len() == raw.len(),
            forall|i: int| 0 <= i < raw.len() ==> all[i] == #[trigger] raw[i].deep_view(),
            kept.deep_view() == distinct(all.take(iter.index() as int)),
    {
        let ghost k = iter.index() as int;
        let ghost before = kept.deep_view();
        assert(all[k] == raw[k].deep_view());
        assert(all.take(k + 1).drop_last() =~= all.take(k));
        if !holds_text(&kept, &tag) {
            kept.push(tag);
            assert(kept.deep_view() =~= before.push(all[k]));
        }
    }
    assert(all.take(all.len() as int) =~= all);
    *tags = kept;
}

/// Gives a tag another name on a header of the account.
fn retag_header(header: MessageHeader, account_id: &AccountId, old_tag: &String, new_tag: &String) -> (retagged: MessageHeader)
    ensures
        retagged.deep_view() == retagged_header(account_id.0@, old_tag@, new_tag@)(header.deep_view()),
{
    let mut header = header;
    if header.account_id == *account_id {
        replace_tag_value(&mut header.tags, old_tag, new_tag);
    }
    header
}

/// Gives a tag another name on headers of the account.
pub(crate) fn retag_headers(headers: &mut Vec<MessageHeader>, account_id: &AccountId, old_tag: &String, new_tag: &String)
    ensures
        final(headers).deep_view() == old(headers).deep_view().map_values(
            retagged_header(account_id.0@, old_tag@, new_tag@),
        ),
{
    let taken = take_list(headers);
    *headers = map_each(
        taken,
        |header: MessageHeader| -> (retagged: MessageHeader)
            ensures
                retagged.deep_view() == retagged_header(account_id.0@, old_tag@, new_tag@)(header.deep_view())
            { retag_header(header, account_id, old_tag, new_tag) },
        Ghost(retagged_header(account_id.0@, old_tag@, new_tag@)),
    );
}

/// Gives a tag another name on a message of the account.
fn retag_message(message: Message, account_id: &AccountId, old_tag: &String, new_tag: &String) -> (retagged: Message)
    ensures
        retagged.deep_view() == retagged_message(account_id.0@, old_tag@, new_tag@)(message.deep_view()),
{
    let mut message = message;
    if message.header.account_id == *account_id {
        replace_tag_value(&mut message.header.tags, old_tag, new_tag);
        replace_tag_value(&mut message.tags, old_tag, new_tag);
    }
    message
}

impl AviaryApp {
    /// The reading pane after a tag of an account got another name.
    pub open spec fn viewer_retagged(before: ViewerState, after: ViewerState, account_id: Seq<char>, from: Seq<char>, to: Seq<char>) -> bool {
        let f = retagged_message(account_id, from, to);
        &&& after.selected.deep_view() == in_selected(before.selected.deep_view(), f)
        &&& after.open_tabs.deep_view() == before.open_tabs.deep_view().map_values(in_tab(f))
        &&& after.thread_bodies.deep_view() == before.thread_bodies.deep_view().map_values(in_body(f))
        &&& after.thread.deep_view() == in_thread(
            before.thread.deep_view(),
            retagged_header(account_id, from, to),
        )
        &&& after == (ViewerState {
            selected: after.selected,
            open_tabs: after.open_tabs,
            thread_bodies: after.thread_bodies,
            thread: after.thread,
            ..before
        })
    }

    /// The board after a tag of an account got another name on its cards.
    pub open spec fn board_retagged(before: BoardState, after: BoardState, account_id: Seq<char>, from: Seq<char>, to: Seq<char>) -> bool {
        &&& after.board(account_id) == match before.board(account_id) {
            Some(board) => Some(
                AccountBoardStateView {
                    columns: board.columns.map_values(in_column(retagged_header(account_id, from, to))),
                    ..board
                },
            ),
            None => None,
        }
        &&& after.same_elsewhere(before, account_id)
        &&& after == (BoardState { accounts: after.accounts, ..before })
    }

    fn retag_viewer(viewer: &mut ViewerState, account_id: &AccountId, old_tag: &String, new_tag: &String)
        ensures
            Self::viewer_retagged(*old(viewer), *final(viewer), account_id.0@, old_tag@, new_tag@),
    {
        let ghost f = retagged_message(account_id.0@, old_tag@, new_tag@);
        if let Some(thread) = &mut viewer.thread {
            retag_headers(&mut thread.1, account_id, old_tag, new_tag);
        }
        map_selected(
            &mut viewer.selected,
            |message: Message| -> (retagged: Message)
                ensures
                    retagged.deep_view() == retagged_message(account_id.0@, old_tag@, new_tag@)(message.deep_view())
                { retag_message(message, account_id, old_tag, new_tag) },
            Ghost(f),
        );
        map_tabs(
            &mut viewer.open_tabs,
            |message: Message| -> (retagged: Message)
                ensures
                    retagged.deep_view() == retagged_message(account_id.0@, old_tag@, new_tag@)(message.deep_view())
                { retag_message(message, account_id, old_tag, new_tag) },
            Ghost(f),
        );
        map_bodies(
            &mut viewer.thread_bodies,
            |message: Message| -> (retagged: Message)
                ensures
                    retagged.deep_view() == retagged_message(account_id.0@, old_tag@, new_tag@)(message.deep_view())
                { retag_message(message, account_id, old_tag, new_tag) },
            Ghost(f),
        );
    }

    fn retag_sent(sent: &mut Vec<(String, Vec<SentMessage>)>, account_id: &AccountId, old_tag: &String, new_tag: &String)
        ensures
            final(sent).deep_view() == old(sent).deep_view().map_values(
                in_sent_list(retagged_message(account_id.0@, old_tag@, new_tag@)),
            ),
    {
        let taken = take_list(sent);
        *sent = map_each(
            taken,
            |entry: (String, Vec<SentMessage>)| -> (mapped: (String, Vec<SentMessage>))
                ensures
                    mapped.deep_view() == in_sent_list(retagged_message(account_id.0@, old_tag@, new_tag@))(
                        entry.deep_view(),
                    )
                {
                (
                    entry.0,
                    map_each(
                        entry.1,
                        |sent: SentMessage| -> (mapped: SentMessage)
                            ensures
                                mapped.deep_view() == in_sent(
                                    retagged_message(account_id.0@, old_tag@, new_tag@),
                                )(sent.deep_view())
                            {
                            let mut sent = sent;
                            sent.message = retag_message(sent.message, account_id, old_tag, new_tag);
                            sent
                        },
                        Ghost(in_sent(retagged_message(account_id.0@, old_tag@, new_tag@))),
                    ),
                )
            },
            Ghost(in_sent_list(retagged_message(account_id.0@, old_tag@, new_tag@))),
        );
    }

    fn retag_board(board: &mut BoardState, account_id: &AccountId, old_tag: &String, new_tag: &String)
        ensures
            Self::board_retagged(*old(board), *final(board), account_id.0@, old_tag@, new_tag@),
    {
        let ghost f = retagged_header(account_id.0@, old_tag@, new_tag@);
        if let Some(part) = board.accounts.get_mut(account_id) {
            let ghost before = part.deep_view();
            let taken = take_list(&mut part.columns);
            part.columns = map_each(
                taken,
                |column: TagColumn| -> (mapped: TagColumn)
                    ensures
                        mapped.deep_view() == in_column(retagged_header(account_id.0@, old_tag@, new_tag@))(
                            column.deep_view(),
                        )
                    {
                    let mut column = column;
                    retag_headers(&mut column.messages, account_id, old_tag, new_tag);
                    column
                },
                Ghost(in_column(f)),
            );
            assert(part.deep_view() == (AccountBoardStateView {
                columns: before.columns.map_values(in_column(f)),
                ..before
            }));
        }
        assert(board.accounts@.remove(account_id.0@) =~= old(board).accounts@.remove(account_id.0@));
    }

    /// Gives a tag of an account another name on all messages at hand: in the list, the
    /// results, the history, the conversation, the reading pane, the replies and forwards,
    /// and on the board.
    pub fn replace_loaded_message_tag(&mut self, account_id: &AccountId, old_tag: &String, new_tag: &String)
        ensures
            old(self).retagged(*final(self), account_id.0@, old_tag@, new_tag@),
    {
        retag_headers(&mut self.mailbox.messages, account_id, old_tag, new_tag);
        if let Some(results) = &mut self.mailbox.search.results {
            retag_headers(results, account_id, old_tag, new_tag);
        }
        if let SenderHistoryState::Loaded { messages, .. } = &mut self.sender_history {
            retag_headers(messages, account_id, old_tag, new_tag);
        }
        Self::retag_viewer(&mut self.mailbox.viewer, account_id, old_tag, new_tag);
        Self::retag_sent(&mut self.mailbox.sent.messages, account_id, old_tag, new_tag);
        Self::retag_board(&mut self.kanban, account_id, old_tag, new_tag);
        self.invalidate_message_list();
    }

    /// A tag of an account has another name on all messages at hand.
    pub open spec fn retagged(self, after: AviaryApp, account_id: Seq<char>, from: Seq<char>, to: Seq<char>) -> bool {
        let f = retagged_header(account_id, from, to);
        &&& after.mailbox.messages.deep_view() == self.mailbox.messages.deep_view().map_values(f)
        &&& after.mailbox.search.results.deep_view() == in_results(self.mailbox.search.results.deep_view(), f)
        &&& after.sender_history.deep_view() == in_history(self.sender_history.deep_view(), f)
        &&& Self::viewer_retagged(self.mailbox.viewer, after.mailbox.viewer, account_id, from, to)
        &&& after.mailbox.sent.messages.deep_view() == self.mailbox.sent.messages.deep_view().map_values(
            in_sent_list(retagged_message(account_id, from, to)),
        )
        &&& Self::board_retagged(self.kanban, after.kanban, account_id, from, to)
        &&& after == (AviaryApp {
            mailbox: MailboxState {
                messages: after.mailbox.messages,
                search: SearchState { results: after.mailbox.search.results, ..self.mailbox.search },
                viewer: after.mailbox.viewer,
                sent: SentState { messages: after.mailbox.sent.messages, ..self.mailbox.sent },
                ..self.mailbox
            },
            sender_history: after.sender_history,
            kanban: after.kanban,
            message_list_revision: self.next_revision(),
            ..self
        })
    }
}

/// A message keeps each tag once; it has the new tag where it had the old or the new
/// one, no longer the old one, and its other tags as before.
pub proof fn law_renamed_tags_are_kept_once(tags: Seq<Seq<char>>, from: Seq<char>, to: Seq<char>)
    ensures
        replaced_tags(tags, from, to).no_duplicates(),
        replaced_tags(tags, from, to).contains(to) <==> tags.contains(from) || tags.contains(to),
        from != to ==> !replaced_tags(tags, from, to).contains(from),
        forall|tag: Seq<char>|
            tag != from && tag != to ==> (#[trigger] replaced_tags(tags, from, to).contains(tag) <==> tags.contains(
                tag,
            )),
{
    let mapped = tags.map_values(swapped(from, to));
    lemma_distinct(mapped);
    assert forall|tag: Seq<char>| #[trigger] mapped.contains(tag) <==> (exists|i: int|
        0 <= i < tags.len() && swapped(from, to)(#[trigger] tags[i]) == tag) by {
        if mapped.contains(tag) {
            let i = choose|i: int| 0 <= i < mapped.len() && mapped[i] == tag;
            assert(swapped(from, to)(tags[i]) == tag);
        }
        if exists|i: int| 0 <= i < tags.len() && swapped(from, to)(#[trigger] tags[i]) == tag {
            let i = choose|i: int| 0 <= i < tags.len() && swapped(from, to)(#[trigger] tags[i]) == tag;
            assert(mapped[i] == tag);
        }
    }
    assert(mapped.contains(to) <==> tags.contains(from) || tags.contains(to)) by {
        if tags.contains(from) {
            let i = choose|i: int| 0 <= i < tags.len() && tags[i] == from;
            assert(swapped(from, to)(tags[i]) == to);
        }
        if tags.contains(to) {
            let i = choose|i: int| 0 <= i < tags.len() && tags[i] == to;
            assert(swapped(from, to)(tags[i]) == to);
        }
    }
    assert(from != to ==> !mapped.contains(from));
    assert forall|tag: Seq<char>| tag != from && tag != to implies (#[trigger] mapped.contains(tag) <==> tags.contains(
        tag,
    )) by {
        if tags.contains(tag) {
            let i = choose|i: int| 0 <= i < tags.len() && tags[i] == tag;
            assert(swapped(from, to)(tags[i]) == tag);
        }
    }
    assert forall|tag: Seq<char>| tag != from && tag != to implies (#[trigger] replaced_tags(tags, from, to).contains(
        tag,
    ) <==> tags.contains(tag)) by {
        assert(mapped.contains(tag) <==> tags.contains(tag));
    }
}

/// To rename a tag twice is to rename it once.
pub proof fn law_renaming_a_tag_settles(tags: Seq<Seq<char>>, from: Seq<char>, to: Seq<char>)
    ensures
        replaced_tags(replaced_tags(tags, from, to), from, to) == replaced_tags(tags, from, to),
{
    law_renamed_tags_are_kept_once(tags, from, to);
    let once = replaced_tags(tags, from, to);
    assert(once.map_values(swapped(from, to)) =~= once) by {
        assert forall|i: int| 0 <= i < once.len() implies swapped(from, to)(#[trigger] once[i]) == once[i] by {
            if once[i] == from && from != to {
                assert(once.contains(from));
            }
        }
    }
    lemma_distinct_of_no_duplicates(once);
}

} // verus!
