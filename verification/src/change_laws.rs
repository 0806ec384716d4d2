//! What changes of headers, conversations, tags and sent mail mean.
use crate::compose_events::{resolved, sent_with_id, unfolded};
use crate::dispatch::{Evt, MailEvt};
use crate::headers::{is_message, law_newest_first, newest_first, upserted};
use crate::lists::{first_index, lemma_first_index, lemma_stable_sort};
use crate::mail_laws::{falls, lemma_kept, lemma_sorting_keeps, lists, results_of, same_but_action};
use crate::model::{AccountId, MessageHeader, MessageHeaderView, MessageRefView, TagView};
use crate::state::{AviaryApp, EffectView, Message, MessageView, SenderHistoryState};
use crate::tag_events::{filter_renamed, tag_changed};
use vstd::prelude::*;

verus! {

/// Whether a list holds a header that is the given one but for its last action.
pub open spec fn shows_change(headers: Seq<MessageHeaderView>, change: MessageHeaderView) -> bool {
    exists|i: int| 0 <= i < headers.len() && same_but_action(#[trigger] headers[i], change)
}

/// What taking changes of an account over does, told of the headers themselves: the last
/// change of each message is there, and headers of messages that did not change stay.
proof fn lemma_upserted(headers: Seq<MessageHeaderView>, account_id: Seq<char>, changes: Seq<MessageHeaderView>)
    requires
        forall|i: int| 0 <= i < changes.len() ==> (#[trigger] changes[i]).account_id == account_id,
    ensures
        ({
            let all = upserted(headers, account_id, changes);
            &&& all.len() >= headers.len()
            &&& forall|x: MessageHeaderView|
                headers.contains(x) && !lists(changes, x.reference()) ==> #[trigger] all.contains(x)
            &&& forall|x: MessageHeaderView| #[trigger]
                all.contains(x) ==> headers.contains(x) || shows_change(changes, x)
            &&& forall|i: int|
                0 <= i < changes.len() && (forall|j: int|
                    i < j < changes.len() ==> (#[trigger] changes[j]).id != changes[i].id) ==> shows_change(
                    all,
                    #[trigger] changes[i],
                )
            &&& forall|i: int| 0 <= i < changes.len() ==> lists(all, (#[trigger] changes[i]).reference())
        }),
    decreases changes.len(),
{
    let all = upserted(headers, account_id, changes);
    if changes.len() > 0 {
        let init = changes.drop_last();
        let front = upserted(headers, account_id, init);
        let header = changes.last();
        let r = MessageRefView { account_id, id: header.id };
        assert(changes[changes.len() - 1] == header);
        assert(r == header.reference());
        assert forall|i: int| 0 <= i < init.len() implies (#[trigger] init[i]).account_id == account_id by {
            assert(init[i] == changes[i]);
        }
        lemma_upserted(headers, account_id, init);
        lemma_first_index(front, is_message(r));
        let place: int = match first_index(front, is_message(r)) {
            Some(i) => i,
            None => front.len() as int,
        };
        assert(same_but_action(all[place], header));
        assert(forall|k: int| 0 <= k < front.len() && k != place ==> all[k] == front[k]);
        assert forall|x: MessageHeaderView| headers.contains(x) && !lists(changes, x.reference()) implies #[trigger] all.contains(
            x,
        ) by {
            assert(x.reference() != r);
            if lists(init, x.reference()) {
                let i = choose|i: int| 0 <= i < init.len() && (#[trigger] init[i]).reference() == x.reference();
                assert(changes[i].reference() == x.reference());
            }
            assert(front.contains(x));
            let k = choose|k: int| 0 <= k < front.len() && front[k] == x;
            assert(all[k] == x);
        }
        assert forall|x: MessageHeaderView| #[trigger] all.contains(x) implies headers.contains(x) || shows_change(
            changes,
            x,
        ) by {
            let k = choose|k: int| 0 <= k < all.len() && all[k] == x;
            if k == place {
                assert(same_but_action(changes[changes.len() - 1], x));
            } else {
                assert(front[k] == x);
                assert(front.contains(x));
                if !headers.contains(x) {
                    let i = choose|i: int| 0 <= i < init.len() && same_but_action(#[trigger] init[i], x);
                    assert(changes[i] == init[i]);
                }
            }
        }
        assert forall|i: int|
            0 <= i < changes.len() && (forall|j: int| i < j < changes.len() ==> (#[trigger] changes[j]).id
                != changes[i].id) implies shows_change(all, #[trigger] changes[i]) by {
            if i < init.len() {
                assert(init[i] == changes[i]);
                assert forall|j: int| i < j < init.len() implies (#[trigger] init[j]).id != init[i].id by {
                    assert(changes[j] == init[j]);
                }
                assert(shows_change(front, init[i]));
                let k = choose|k: int| 0 <= k < front.len() && same_but_action(#[trigger] front[k], init[i]);
                assert(changes[changes.len() - 1].id != changes[i].id);
                assert(front[k].id == init[i].id);
                assert(k != place);
                assert(all[k] == front[k]);
            } else {
                assert(same_but_action(all[place], changes[i]));
            }
        }
        assert forall|i: int| 0 <= i < changes.len() implies lists(all, (#[trigger] changes[i]).reference()) by {
            if i < init.len() {
                assert(init[i] == changes[i]);
                assert(lists(front, init[i].reference()));
                let k = choose|k: int| 0 <= k < front.len() && (#[trigger] front[k]).reference() == init[i].reference();
                if k == place {
                    assert(all[place].reference() == r);
                    assert(front[k].reference() == r);
                }
                assert(all[k].reference() == changes[i].reference());
            } else {
                assert(all[place].reference() == r);
            }
        }
    }
}

/// Changes of a folder that is shown reach the list: what was deleted is gone unless it came
/// anew, what changed is there as it changed last, and what did neither stays; nothing else
/// comes. What was deleted is gone from the results too. Changes of another folder, or of an
/// account that is not shown, change nothing.
pub proof fn law_changes_reach_the_list(
    before: AviaryApp,
    after: AviaryApp,
    account_id: AccountId,
    folder_id: Option<String>,
    upserts: Vec<MessageHeader>,
    deleted: Vec<String>,
)
    requires
        before.event_done(after, Evt::Mail(MailEvt::MessageChanges { account_id, folder_id, upserts, deleted })),
        forall|i: int| 0 <= i < upserts.deep_view().len() ==> (#[trigger] upserts.deep_view()[i]).account_id == account_id.0@,
    ensures
        ({
            let shown = before.relevant(account_id.0@) && before.mailbox.selected_folder_id.deep_view()
                == folder_id.deep_view();
            let old_list = before.mailbox.messages.deep_view();
            let new_list = after.mailbox.messages.deep_view();
            let changes = upserts.deep_view();
            let gone = deleted.deep_view();
            &&& !shown ==> after == before
            &&& shown ==> {
                &&& forall|x: MessageHeaderView|
                    old_list.contains(x) && !gone.contains(x.id) && !lists(changes, x.reference())
                        ==> #[trigger] new_list.contains(x)
                &&& forall|x: MessageHeaderView| #[trigger]
                    new_list.contains(x) ==> (old_list.contains(x) && !gone.contains(x.id)) || shows_change(changes, x)
                &&& forall|i: int| 0 <= i < changes.len() ==> lists(new_list, (#[trigger] changes[i]).reference())
                &&& falls(new_list)
                &&& forall|x: MessageHeaderView| #[trigger]
                    results_of(after).contains(x) <==> results_of(before).contains(x) && !gone.contains(x.id)
                &&& after.effects.deep_view().last() == EffectView::UpdateTrayUnread
                &&& after.mailbox.viewer == before.mailbox.viewer
            }
        }),
{
    let old_list = before.mailbox.messages.deep_view();
    let changes = upserts.deep_view();
    let gone = deleted.deep_view();
    let p = crate::message_events::none_of(gone);
    let kept = old_list.filter(p);
    let all = upserted(kept, account_id.0@, changes);
    lemma_kept(old_list, p);
    lemma_kept(results_of(before), p);
    lemma_upserted(kept, account_id.0@, changes);
    lemma_sorting_keeps(all, newest_first());
    lemma_stable_sort(all, newest_first());
    law_newest_first(all);
}

/// A message from the local copy is shown while it is the one that is waited for, and read
/// like any other; otherwise nothing happens.
pub proof fn law_local_copies_show_what_is_selected(
    before: AviaryApp,
    after: AviaryApp,
    account_id: AccountId,
    message: Message,
)
    requires
        before.event_done(after, Evt::Mail(MailEvt::CachedMessageOpened { account_id, message })),
    ensures
        before.mailbox.viewer.selected_id.deep_view() != Some(message.header.id@) ==> after == before,
        before.mailbox.viewer.selected_id.deep_view() == Some(message.header.id@) ==> {
            &&& after.mailbox.viewer.selected.deep_view() == Some(
                MessageView {
                    header: MessageHeaderView { is_read: true, ..message.deep_view().header },
                    ..message.deep_view()
                },
            )
            &&& after.mailbox.viewer.selected_id == before.mailbox.viewer.selected_id
            &&& after.mailbox.messages.deep_view().len() == before.mailbox.messages.deep_view().len()
            &&& forall|i: int|
                0 <= i < before.mailbox.messages.deep_view().len() ==> {
                    let was = before.mailbox.messages.deep_view()[i];
                    #[trigger] after.mailbox.messages.deep_view()[i] == (MessageHeaderView {
                        is_read: was.is_read || was.id == message.header.id@,
                        ..was
                    })
                }
            &&& after.sender_history == SenderHistoryState::Idle
        },
{
}

/// A draft that was opened goes to a composer and is not shown, read or listed otherwise.
pub proof fn law_drafts_go_to_a_composer(before: AviaryApp, after: AviaryApp, account_id: AccountId, message: Message)
    requires
        before.event_done(after, Evt::Mail(MailEvt::MessageOpened { account_id, message })),
        before.wants(account_id.0@, message.header.id@),
        message.draft_id is Some,
    ensures
        after.effects.deep_view() == before.effects.deep_view().push(
            EffectView::OpenDraft { account_id: account_id.0@, message: message.deep_view() },
        ),
        after.mailbox == before.mailbox,
{
    let now = before.notification_served(account_id.0@, message.header.id@);
    assert(now.wants(account_id.0@, message.header.id@));
    assert(after.effects.deep_view() =~= before.effects.deep_view().push(
        EffectView::OpenDraft { account_id: account_id.0@, message: message.deep_view() },
    ));
}

/// Sizes of conversations that came for the folder that is shown are those of their account,
/// and take the place of those that it had; those of other accounts stay.
pub proof fn law_sizes_of_conversations_are_those_that_came(
    before: AviaryApp,
    after: AviaryApp,
    account_id: AccountId,
    folder_id: Option<String>,
    totals: Vec<(String, usize)>,
)
    requires
        before.event_done(after, Evt::Mail(MailEvt::ConversationTotals { account_id, folder_id, totals })),
    ensures
        before.mailbox.selected_folder_id.deep_view() != folder_id.deep_view() ==> after == before,
        before.mailbox.selected_folder_id.deep_view() == folder_id.deep_view() ==> {
            let was = before.mailbox.folds.conversation_totals.deep_view();
            let now = after.mailbox.folds.conversation_totals.deep_view();
            let came = totals.deep_view();
            &&& forall|x: ((Seq<char>, Seq<char>), usize)|
                (x.0).0 != account_id.0@ ==> (#[trigger] now.contains(x) <==> was.contains(x))
            &&& forall|i: int|
                0 <= i < came.len() ==> now.contains(((account_id.0@, (#[trigger] came[i]).0), came[i].1))
            &&& forall|x: ((Seq<char>, Seq<char>), usize)| #[trigger]
                now.contains(x) && (x.0).0 == account_id.0@ ==> came.contains(((x.0).1, x.1))
            &&& after.mailbox.messages == before.mailbox.messages
        },
{
    let was = before.mailbox.folds.conversation_totals.deep_view();
    let now = after.mailbox.folds.conversation_totals.deep_view();
    let came = totals.deep_view();
    let p = crate::mailbox_events::total_of_other(account_id.0@);
    let others = was.filter(p);
    let own = came.map_values(crate::mailbox_events::total_for(account_id.0@));
    lemma_kept(was, p);
    if before.mailbox.selected_folder_id.deep_view() == folder_id.deep_view() {
        assert(now == others + own);
        assert forall|x: ((Seq<char>, Seq<char>), usize)| (x.0).0 != account_id.0@ implies (#[trigger] now.contains(x)
            <==> was.contains(x)) by {
            if was.contains(x) {
                assert(others.contains(x));
                let k = choose|k: int| 0 <= k < others.len() && others[k] == x;
                assert(now[k] == x);
            }
            if now.contains(x) {
                let k = choose|k: int| 0 <= k < now.len() && now[k] == x;
                if k < others.len() {
                    assert(others[k] == x);
                    assert(others.contains(x));
                } else {
                    assert(own[k - others.len()] == x);
                }
            }
        }
        assert forall|i: int| 0 <= i < came.len() implies now.contains(
            ((account_id.0@, (#[trigger] came[i]).0), came[i].1),
        ) by {
            assert(now[others.len() + i] == ((account_id.0@, came[i].0), came[i].1));
        }
        assert forall|x: ((Seq<char>, Seq<char>), usize)| #[trigger] now.contains(x) && (x.0).0
            == account_id.0@ implies came.contains(((x.0).1, x.1)) by {
            let k = choose|k: int| 0 <= k < now.len() && now[k] == x;
            if k < others.len() {
                assert(others[k] == x);
                assert(others.contains(x));
            } else {
                assert(came[k - others.len()] == ((x.0).1, x.1));
            }
        }
    }
}

/// A tag that was renamed keeps its place and its color, and has its new id and name; no
/// other tag changes. A filter that named it names it by its new id, each id once.
pub proof fn law_renamed_tags_keep_their_place(
    tags: Seq<TagView>,
    id: Seq<char>,
    to: Seq<char>,
    name: Seq<char>,
    filter: Seq<Seq<char>>,
    i: int,
)
    requires
        0 <= i < tags.len(),
    ensures
        ({
            let now = tag_changed(tags, id, crate::tag_events::tag_named(to, name));
            &&& now.len() == tags.len()
            &&& tags[i].id != id ==> now[i] == tags[i]
            &&& tags[i].id == id && (forall|j: int| 0 <= j < i ==> (#[trigger] tags[j]).id != id) ==> now[i].id == to
                && now[i].display_name == name && now[i].color == tags[i].color
        }),
        id != to ==> !filter_renamed(filter, id, to).contains(id),
        filter.contains(id) ==> filter_renamed(filter, id, to).contains(to),
        forall|other: Seq<char>|
            other != id && other != to ==> (#[trigger] filter_renamed(filter, id, to).contains(other)
                <==> filter.contains(other)),
        !filter.contains(id) ==> filter_renamed(filter, id, to) == filter,
{
    lemma_first_index(tags, crate::kanban::tag_has_id(id));
    if tags[i].id == id && forall|j: int| 0 <= j < i ==> (#[trigger] tags[j]).id != id {
        crate::lists::lemma_first_index_is(tags, crate::kanban::tag_has_id(id), i);
    }
    lemma_kept(filter, crate::settings::other_text(id));
    let rest = filter.filter(crate::settings::other_text(id));
    let now = filter_renamed(filter, id, to);
    if filter.contains(id) && !rest.contains(to) {
        assert(now[rest.len() as int] == to);
        assert forall|other: Seq<char>| other != id && other != to implies (#[trigger] now.contains(other) <==> filter.contains(
            other,
        )) by {
            if rest.contains(other) {
                let k = choose|k: int| 0 <= k < rest.len() && rest[k] == other;
                assert(now[k] == other);
            }
            if now.contains(other) {
                let k = choose|k: int| 0 <= k < now.len() && now[k] == other;
                assert(rest[k] == other);
                assert(rest.contains(other));
            }
        }
        if id != to && now.contains(id) {
            let k = choose|k: int| 0 <= k < now.len() && now[k] == id;
            assert(rest[k] == id);
            assert(rest.contains(id));
        }
    }
}

/// The provider's own copy of a mail takes the place of the one that was kept: it stands
/// where that stood, under its own id, and stays unfolded if that was. Other copies stay.
pub proof fn law_own_copies_take_the_place_of_kept_ones(
    sent: Seq<crate::state::SentMessageView>,
    snapshot_id: Seq<char>,
    message: MessageView,
    expanded: Seq<Seq<char>>,
    i: int,
)
    requires
        0 <= i < sent.len(),
    ensures
        resolved(sent, snapshot_id, message).len() == sent.len(),
        sent[i].message.header.id != snapshot_id ==> resolved(sent, snapshot_id, message)[i] == sent[i],
        sent[i].message.header.id == snapshot_id && (forall|j: int|
            0 <= j < i ==> (#[trigger] sent[j]).message.header.id != snapshot_id) ==> {
            let now = resolved(sent, snapshot_id, message)[i];
            now.message == message && now.sent_id == Some(message.header.id) && now.related_to == sent[i].related_to
        },
        expanded.contains(snapshot_id) ==> unfolded(expanded, snapshot_id, message.header.id).contains(
            message.header.id,
        ),
        !expanded.contains(snapshot_id) ==> unfolded(expanded, snapshot_id, message.header.id) == expanded,
        snapshot_id != message.header.id ==> !unfolded(expanded, snapshot_id, message.header.id).contains(snapshot_id),
{
    lemma_first_index(sent, sent_with_id(snapshot_id));
    if sent[i].message.header.id == snapshot_id && forall|j: int|
        0 <= j < i ==> (#[trigger] sent[j]).message.header.id != snapshot_id {
        crate::lists::lemma_first_index_is(sent, sent_with_id(snapshot_id), i);
    }
    let to = message.header.id;
    lemma_kept(expanded, crate::settings::other_text(snapshot_id));
    let rest = expanded.filter(crate::settings::other_text(snapshot_id));
    let now = unfolded(expanded, snapshot_id, to);
    if expanded.contains(snapshot_id) && !rest.contains(to) {
        assert(now[rest.len() as int] == to);
        if snapshot_id != to && now.contains(snapshot_id) {
            let k = choose|k: int| 0 <= k < now.len() && now[k] == snapshot_id;
            assert(rest[k] == snapshot_id);
            assert(rest.contains(snapshot_id));
        }
    }
}

} // verus!
