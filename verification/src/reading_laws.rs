//! What events of single messages mean: mail that came, changed, was opened or was answered.
use crate::dispatch::{Evt, MailEvt};
use crate::headers::{appended, is_message};
use crate::lists::lemma_first_index;
use crate::mail_laws::{each_once, lemma_appending, lists, results_of, same_but_action};
use crate::model::{AccountId, LastAction, MessageHeader, MessageHeaderView};
use crate::navigation::{lemma_filter_accepts, lemma_filter_holds, lemma_filter_keeps};
use crate::settings::is_blocked;
use crate::state::{AviaryApp, EffectView, Message, MessageView, ThreadBodyStateView, ViewerTabView};
use vstd::prelude::*;

verus! {

/// The senders whose mail is not wanted.
pub open spec fn unwanted(app: AviaryApp, header: MessageHeaderView) -> bool {
    is_blocked(app.settings.global.blocked_senders.deep_view(), header.from)
}

proof fn lemma_first_appended(s: Seq<MessageHeaderView>)
    requires
        s.len() > 0,
    ensures
        appended(Seq::empty(), s).len() > 0,
        appended(Seq::empty(), s)[0] == s[0],
    decreases s.len(),
{
    let none = Seq::<MessageHeaderView>::empty();
    let front = appended(none, s.drop_last());
    if s.len() > 1 {
        lemma_first_appended(s.drop_last());
        assert(appended(none, s)[0] == front[0]);
    } else {
        assert(s.drop_last() =~= none);
        assert(front =~= none);
        assert(!front.any(is_message(s.last().reference())));
    }
}

/// New mail heads the list of the accounts that are shown: every message that came from a
/// sender who is not blocked is there once, all that was there stays, and nothing else comes.
/// Mail of blocked senders is not shown; each such message is asked to be moved to the junk
/// folder, whichever account it is of, and no other message is.
pub proof fn law_new_mail_heads_the_list(
    before: AviaryApp,
    after: AviaryApp,
    account_id: AccountId,
    messages: Vec<MessageHeader>,
)
    requires
        before.event_done(after, Evt::Mail(MailEvt::NewMessages { account_id, messages })),
    ensures
        ({
            let came = messages.deep_view();
            let old_list = before.mailbox.messages.deep_view();
            let new_list = after.mailbox.messages.deep_view();
            &&& !before.relevant(account_id.0@) ==> new_list == old_list
            &&& before.relevant(account_id.0@) ==> {
                &&& forall|i: int|
                    0 <= i < came.len() && !unwanted(before, #[trigger] came[i]) ==> lists(new_list, came[i].reference())
                &&& forall|i: int| 0 <= i < old_list.len() ==> lists(new_list, (#[trigger] old_list[i]).reference())
            }
            &&& forall|x: MessageHeaderView| #[trigger]
                new_list.contains(x) ==> old_list.contains(x) || (came.contains(x) && !unwanted(before, x))
            &&& new_list != old_list ==> each_once(new_list) && came.contains(new_list[0])
            &&& forall|i: int|
                0 <= i < came.len() && unwanted(before, #[trigger] came[i]) ==> after.effects.deep_view().contains(
                    EffectView::MoveToJunk { reference: came[i].reference() },
                )
            &&& forall|e: int|
                before.effects.len() <= e < after.effects.len() && #[trigger] after.effects.deep_view()[e] is MoveToJunk
                    ==> junked(before, came, after.effects.deep_view()[e])
            &&& after.mailbox.viewer == before.mailbox.viewer
            &&& after.mailbox.search == before.mailbox.search
        }),
{
    let came = messages.deep_view();
    let old_list = before.mailbox.messages.deep_view();
    let new_list = after.mailbox.messages.deep_view();
    let kept = came.filter(before.welcome());
    let bad = came.filter(before.blocked());
    let none = Seq::<MessageHeaderView>::empty();
    let old_effects = before.effects.deep_view();
    let effects = after.effects.deep_view();
    assert(old_effects.len() == before.effects.len() && effects.len() == after.effects.len());
    lemma_filter_accepts(came, before.welcome());
    lemma_filter_holds(came, before.welcome());
    lemma_filter_accepts(came, before.blocked());
    lemma_filter_holds(came, before.blocked());
    assert forall|i: int| 0 <= i < came.len() && !unwanted(before, #[trigger] came[i]) implies kept.contains(came[i]) by {
        lemma_filter_keeps(came, before.welcome(), came[i]);
    }
    let asks = before.junk_asks(came);
    assert forall|i: int| 0 <= i < came.len() && unwanted(before, #[trigger] came[i]) implies effects.contains(
        EffectView::MoveToJunk { reference: came[i].reference() },
    ) by {
        lemma_filter_keeps(came, before.blocked(), came[i]);
        let k = choose|k: int| 0 <= k < bad.len() && bad[k] == came[i];
        assert(asks[k] == (EffectView::MoveToJunk { reference: came[i].reference() }));
        assert(effects[old_effects.len() + k] == asks[k]);
    }
    assert forall|e: int| before.effects.len() <= e < after.effects.len() && #[trigger] effects[e] is MoveToJunk implies junked(
        before,
        came,
        effects[e],
    ) by {
        let r = e - old_effects.len();
        assert(effects[e] == before.new_mail_asks(account_id.0@, came)[r]);
        if r < asks.len() {
            assert(effects[e] == asks[r]);
            assert(came.contains(bad[r]));
            let k = choose|k: int| 0 <= k < came.len() && came[k] == bad[r];
            assert(unwanted(before, came[k]));
        } else {
            let notices = before.new_mail_notices(kept);
            if r - asks.len() < notices.len() {
                assert(effects[e] == notices[r - asks.len()]);
            }
        }
    }
    if kept.len() > 0 && before.relevant(account_id.0@) {
        let all = kept + old_list;
        lemma_appending(none, all);
        lemma_first_appended(all);
        assert(each_once(none));
        assert forall|x: MessageHeaderView| #[trigger] new_list.contains(x) implies old_list.contains(x) || (
        came.contains(x) && !unwanted(before, x)) by {
            let i = choose|i: int| 0 <= i < new_list.len() && new_list[i] == x;
            assert(all.contains(new_list[i]));
            let k = choose|k: int| 0 <= k < all.len() && all[k] == x;
            if k < kept.len() {
                assert(kept[k] == x);
            } else {
                assert(old_list[k - kept.len()] == x);
            }
        }
        assert forall|i: int| 0 <= i < came.len() && !unwanted(before, #[trigger] came[i]) implies lists(
            new_list,
            came[i].reference(),
        ) by {
            let k = choose|k: int| 0 <= k < kept.len() && kept[k] == came[i];
            assert(all[k] == came[i]);
        }
        assert forall|i: int| 0 <= i < old_list.len() implies lists(new_list, (#[trigger] old_list[i]).reference()) by {
            assert(all[kept.len() + i] == old_list[i]);
        }
        assert(new_list[0] == kept[0]);
    } else {
        assert forall|i: int| 0 <= i < old_list.len() implies lists(old_list, (#[trigger] old_list[i]).reference()) by {}
        if kept.len() == 0 {
            assert forall|i: int| 0 <= i < came.len() implies unwanted(before, #[trigger] came[i]) by {
                if !unwanted(before, came[i]) {
                    let k = choose|k: int| 0 <= k < kept.len() && kept[k] == came[i];
                }
            }
        }
    }
}

/// Whether an effect moves a message of a blocked sender to the junk folder.
pub open spec fn junked(app: AviaryApp, came: Seq<MessageHeaderView>, effect: EffectView) -> bool {
    exists|i: int|
        0 <= i < came.len() && unwanted(app, #[trigger] came[i]) && effect == (EffectView::MoveToJunk {
            reference: came[i].reference(),
        })
}

/// An account that went offline is known to be so until it comes back, and is told of once;
/// what is known of other accounts stays.
pub proof fn law_offline_accounts_are_known(
    before: AviaryApp,
    after: AviaryApp,
    account_id: AccountId,
    online: bool,
    error: Option<String>,
)
    requires
        before.event_done(after, Evt::Mail(MailEvt::SyncStateChanged { account_id, online, error })),
    ensures
        after.offline_accounts.deep_view().contains(account_id.0@) == !online,
        forall|other: Seq<char>|
            other != account_id.0@ ==> #[trigger] after.offline_accounts.deep_view().contains(other)
                == before.offline_accounts.deep_view().contains(other),
        after.effects.len() == before.effects.len() + (if !online && !before.offline_accounts.deep_view().contains(
            account_id.0@,
        ) {
            1int
        } else {
            0int
        }),
        after.mailbox == before.mailbox,
{
    let was = before.offline_accounts.deep_view();
    let now = after.offline_accounts.deep_view();
    let p = crate::app::other_account(account_id.0@);
    assert(after.effects.deep_view().len() == after.effects.len());
    assert(before.effects.deep_view().len() == before.effects.len());
    lemma_filter_accepts(was, p);
    lemma_filter_holds(was, p);
    assert forall|other: Seq<char>| other != account_id.0@ implies #[trigger] now.contains(other) == was.contains(other) by {
        if was.contains(other) {
            lemma_filter_keeps(was, p, other);
            let k = choose|k: int| 0 <= k < was.len() && was[k] == other;
            if !online && !was.contains(account_id.0@) {
                assert(now[k] == other);
            }
        }
        if now.contains(other) && !online && !was.contains(account_id.0@) {
            let k = choose|k: int| 0 <= k < now.len() && now[k] == other;
            assert(was[k] == other);
        }
    }
    if !online && !was.contains(account_id.0@) {
        assert(now[was.len() as int] == account_id.0@);
    }
}

/// Whether headers are as they were, but that those with an id are read.
pub open spec fn only_read(old_list: Seq<MessageHeaderView>, new_list: Seq<MessageHeaderView>, id: Seq<char>) -> bool {
    &&& new_list.len() == old_list.len()
    &&& forall|i: int|
        0 <= i < old_list.len() ==> #[trigger] new_list[i] == (MessageHeaderView {
            is_read: old_list[i].is_read || old_list[i].id == id,
            ..old_list[i]
        })
}

/// A message that is opened in the reading pane is read, there, in the list and in the
/// results, and the pane shows it and not another. One that waited to be answered or
/// forwarded no longer does, and is handed to a composer, as the right one of the two.
pub proof fn law_opened_messages_are_read(before: AviaryApp, after: AviaryApp, account_id: AccountId, message: Message)
    requires
        before.event_done(after, Evt::Mail(MailEvt::MessageOpened { account_id, message })),
        before.wants(account_id.0@, message.header.id@),
        message.draft_id is None,
    ensures
        only_read(
            before.mailbox.messages.deep_view(),
            after.mailbox.messages.deep_view(),
            message.header.id@,
        ),
        only_read(results_of(before), results_of(after), message.header.id@),
        before.pending.kanban_open.deep_view() != Some((account_id.0@, message.header.id@)) ==> {
            let shown = after.mailbox.viewer.selected.deep_view();
            &&& shown is Some
            &&& shown->0.header.is_read
            &&& shown->0 == (MessageView {
                header: MessageHeaderView { is_read: true, ..message.deep_view().header },
                ..message.deep_view()
            })
            &&& after.mailbox.viewer.selected_id.deep_view() == Some(message.header.id@)
            &&& before.pending.reply_id.deep_view() == Some(message.header.id@) ==> after.pending.reply_id is None
                && after.effects.deep_view().contains(
                EffectView::ReplyAll { account_id: account_id.0@, message: message.deep_view() },
            )
            &&& before.pending.reply_id.deep_view() != Some(message.header.id@) ==> after.pending.reply_id
                == before.pending.reply_id
            &&& before.pending.forward_id.deep_view() == Some(message.header.id@) ==> after.pending.forward_id is None
                && after.effects.deep_view().contains(
                EffectView::Forward { account_id: account_id.0@, message: message.deep_view() },
            )
        },
        before.pending.kanban_open.deep_view() == Some((account_id.0@, message.header.id@)) ==> {
            &&& after.pending.kanban_open is None
            &&& after.mailbox.viewer == before.mailbox.viewer
            &&& after.effects.deep_view().last() == (EffectView::OpenTab { message: message.deep_view() })
        },
{
    let id = message.header.id@;
    let now = before.notification_served(account_id.0@, id);
    assert(now.wants(account_id.0@, id));
    assert(now.opened_mail(account_id.0@, message.deep_view(), after));
    let answers = now.answer_asks(account_id.0@, message.deep_view());
    let opens = now.open_asks(account_id.0@, message.deep_view());
    let effects = after.effects.deep_view();
    let n = before.effects.deep_view().len() as int;
    let t = crate::message_events::thread_asks(account_id.0@, message.deep_view()).len() as int;
    if before.pending.kanban_open.deep_view() != Some((account_id.0@, id)) {
        if before.pending.reply_id.deep_view() == Some(id) {
            assert(opens[t] == answers[0]);
            assert(effects[n + t] == answers[0]);
        }
        if before.pending.forward_id.deep_view() == Some(id) {
            assert(opens[t + answers.len() - 1] == answers[answers.len() - 1]);
            assert(effects[n + t + answers.len() - 1] == answers[answers.len() - 1]);
        }
    }
}

/// A message that nobody waits for any more changes nothing that is shown.
pub proof fn law_late_messages_are_left_alone(before: AviaryApp, after: AviaryApp, account_id: AccountId, message: Message)
    requires
        before.event_done(after, Evt::Mail(MailEvt::MessageOpened { account_id, message })),
        before.mailbox.viewer.selected_id.deep_view() != Some(message.header.id@),
        before.pending.reply_id.deep_view() != Some(message.header.id@),
        before.pending.forward_id.deep_view() != Some(message.header.id@),
        before.pending.kanban_open.deep_view() != Some((account_id.0@, message.header.id@)),
    ensures
        after.mailbox == before.mailbox,
        after.effects == before.effects,
        after.kanban == before.kanban,
{
}

/// The body of a message shows wherever the message is open: in the reading pane if it is
/// the selected one, in each of its tabs, and among the older messages of its conversation.
/// Nothing else that is open changes.
pub proof fn law_bodies_show_where_their_message_is_open(
    before: AviaryApp,
    after: AviaryApp,
    account_id: AccountId,
    restores: bool,
    id: String,
    message: Message,
)
    requires
        before.event_done(after, Evt::Mail(MailEvt::ThreadMessageLoaded { account_id, restores, id, message })),
    ensures
        only_read(before.mailbox.messages.deep_view(), after.mailbox.messages.deep_view(), id@),
        only_read(results_of(before), results_of(after), id@),
        before.mailbox.viewer.selected_id.deep_view() == Some(id@) ==> after.mailbox.viewer.selected.deep_view() == Some(
            MessageView {
                header: MessageHeaderView { is_read: true, ..message.deep_view().header },
                ..message.deep_view()
            },
        ),
        before.mailbox.viewer.selected_id.deep_view() != Some(id@) ==> after.mailbox.viewer.selected.deep_view()
            == before.mailbox.viewer.selected.deep_view(),
        after.mailbox.viewer.selected_id == before.mailbox.viewer.selected_id,
        after.mailbox.viewer.active_tab == before.mailbox.viewer.active_tab,
        after.mailbox.viewer.open_tabs.len() == before.mailbox.viewer.open_tabs.len(),
        exists|k: int|
            0 <= k < after.mailbox.viewer.thread_bodies.len() && #[trigger] after.mailbox.viewer.thread_bodies.deep_view()[k]
                == (id@, ThreadBodyStateView::Loaded { message: message.deep_view() }),
{
    let entries = before.mailbox.viewer.thread_bodies.deep_view();
    let now = after.mailbox.viewer.thread_bodies.deep_view();
    let p = crate::reading::keyed::<ThreadBodyStateView>(id@);
    lemma_first_index(entries, p);
    assert(now.len() == after.mailbox.viewer.thread_bodies.len());
    assert(after.mailbox.viewer.open_tabs.deep_view().len() == after.mailbox.viewer.open_tabs.len());
    assert(before.mailbox.viewer.open_tabs.deep_view().len() == before.mailbox.viewer.open_tabs.len());
    match crate::lists::first_index(entries, p) {
        Some(i) => assert(now[i] == (id@, ThreadBodyStateView::Loaded { message: message.deep_view() })),
        None => assert(now[entries.len() as int] == (
            id@,
            ThreadBodyStateView::Loaded { message: message.deep_view() },
        )),
    }
}

/// The messages of a conversation are shown with the selected message if it is of that
/// conversation, and change nothing otherwise.
pub proof fn law_conversations_show_with_their_message(
    before: AviaryApp,
    after: AviaryApp,
    account_id: AccountId,
    conversation_id: String,
    messages: Vec<MessageHeader>,
)
    requires
        before.event_done(after, Evt::Mail(MailEvt::Thread { account_id, conversation_id, messages })),
    ensures
        ({
            let shown = before.mailbox.viewer.selected.deep_view();
            let theirs = shown is Some && shown->0.header.conversation_id == Some(conversation_id@);
            &&& theirs ==> after.mailbox.viewer.thread == Some((conversation_id, messages))
                && after.mailbox.viewer.thread_bodies.len() == 0 && after.mailbox.viewer.selected
                == before.mailbox.viewer.selected
            &&& !theirs ==> after == before
        }),
{
    assert(after.mailbox.viewer.thread_bodies.deep_view().len() == after.mailbox.viewer.thread_bodies.len());
}

/// Whether headers are as they were, but that those with an id tell of an action.
pub open spec fn only_noted(
    old_list: Seq<MessageHeaderView>,
    new_list: Seq<MessageHeaderView>,
    id: Seq<char>,
    action: LastAction,
    at: i128,
) -> bool {
    &&& new_list.len() == old_list.len()
    &&& forall|i: int|
        0 <= i < old_list.len() ==> {
            &&& same_but_action(#[trigger] new_list[i], old_list[i])
            &&& old_list[i].id == id ==> new_list[i].last_action == Some(action) && new_list[i].last_action_at == Some(at)
            &&& old_list[i].id != id ==> new_list[i] == old_list[i]
        }
}

/// That a message was answered or forwarded shows in the list, in the results and in its
/// tabs, and nowhere else.
pub proof fn law_actions_are_noted_on_their_message(
    before: AviaryApp,
    after: AviaryApp,
    account_id: AccountId,
    id: String,
    action: LastAction,
    at: i128,
)
    requires
        before.event_done(after, Evt::Mail(MailEvt::MessageActionNoted { account_id, id, action, at })),
    ensures
        only_noted(before.mailbox.messages.deep_view(), after.mailbox.messages.deep_view(), id@, action, at),
        only_noted(results_of(before), results_of(after), id@, action, at),
        ({
            let old_tabs = before.mailbox.viewer.open_tabs.deep_view();
            let new_tabs = after.mailbox.viewer.open_tabs.deep_view();
            &&& new_tabs.len() == old_tabs.len()
            &&& forall|i: int|
                0 <= i < old_tabs.len() ==> match (old_tabs[i], #[trigger] new_tabs[i]) {
                    (ViewerTabView::Message { message: was }, ViewerTabView::Message { message: now }) => {
                        &&& same_but_action(now.header, was.header)
                        &&& was.header.id == id@ ==> now.header.last_action == Some(action)
                            && now.header.last_action_at == Some(at)
                        &&& was.header.id != id@ ==> now == was
                    },
                    (was, now) => now == was,
                }
        }),
        after.effects == before.effects,
        after.mailbox.viewer.selected == before.mailbox.viewer.selected,
{
}

} // verus!
