//! What the answers to requests mean: for folders, for messages that were changed, moved or
//! deleted, for mail that was sent, for events of calendars and for quick actions.
use crate::bulk_events::{BulkCompletion, BulkReply};
use crate::calendar_events::{earlier_first, is_event};
use crate::dispatch::{CalendarEvt, ComposeEvt, Evt, FolderEvt, OutboxEvt, QuickEvt};
use crate::folder_events::{folder_named, folders_of};
use crate::headers::{is_message, newest_first, placed};
use crate::lists::{lemma_first_index, lemma_stable_sort, stable_sort};
use crate::mail_laws::{falls, lemma_kept, lemma_sorting_keeps, lists, results_of};
use crate::model::{AccountId, MailFolder, MailFolderView, MessageHeader, MessageHeaderView, MessageRefView};
use crate::recipes::is_execution;
use crate::settings::QuickActionView;
use crate::state::{
    AviaryApp, CalendarEventView, EffectView, InvitationResponse, MessageView, MutationKind, NoticeTextView,
    SentMessage, ToastKind,
};
use vstd::prelude::*;

verus! {

/// The folders of an account that came are its folders, in the tree too while the account
/// is the current one; those of other accounts stay.
pub proof fn law_folders_are_those_that_came(
    before: AviaryApp,
    after: AviaryApp,
    account_id: AccountId,
    folders: Vec<MailFolder>,
)
    requires
        before.event_done(after, Evt::Folder(FolderEvt::Folders { account_id, folders })),
    ensures
        folders_of(after.mailbox.folders_by_account, account_id.0@) == folders.deep_view(),
        forall|other: Seq<char>|
            other != account_id.0@ ==> #[trigger] folders_of(after.mailbox.folders_by_account, other) == folders_of(
                before.mailbox.folders_by_account,
                other,
            ),
        before.current_account_id.deep_view() == Some(account_id.0@) ==> after.mailbox.folders.deep_view()
            == folders.deep_view(),
        before.current_account_id.deep_view() != Some(account_id.0@) ==> after.mailbox.folders == before.mailbox.folders,
        after.mailbox.messages == before.mailbox.messages,
        after.mailbox.selected_folder_id == before.mailbox.selected_folder_id,
        after.effects == before.effects,
{
}

/// A folder that was created is one of its account's folders, behind the others.
pub proof fn law_created_folders_are_there(before: AviaryApp, after: AviaryApp, account_id: AccountId, folder: MailFolder)
    requires
        before.event_done(after, Evt::Folder(FolderEvt::FolderCreated { account_id, folder })),
    ensures
        ({
            let was = folders_of(before.mailbox.folders_by_account, account_id.0@);
            let now = folders_of(after.mailbox.folders_by_account, account_id.0@);
            &&& now.len() == was.len() + 1
            &&& now.last() == folder.deep_view()
            &&& was.is_prefix_of(now)
        }),
        forall|other: Seq<char>|
            other != account_id.0@ ==> #[trigger] folders_of(after.mailbox.folders_by_account, other) == folders_of(
                before.mailbox.folders_by_account,
                other,
            ),
        after.effects.deep_view().last() == (EffectView::LoadFolders { account_id: account_id.0@ }),
        after.mailbox.selected_folder_id == before.mailbox.selected_folder_id,
{
}

/// A folder that was deleted is gone from its account, with every pin and unfolding of it;
/// the other folders stay. If it was on display, no folder is chosen any more.
pub proof fn law_deleted_folders_are_gone(before: AviaryApp, after: AviaryApp, account_id: AccountId, id: String)
    requires
        before.event_done(after, Evt::Folder(FolderEvt::FolderDeleted { account_id, id })),
    ensures
        forall|folder: MailFolderView| #[trigger]
            folders_of(after.mailbox.folders_by_account, account_id.0@).contains(folder) <==> folders_of(
                before.mailbox.folders_by_account,
                account_id.0@,
            ).contains(folder) && folder.id != id@,
        ({
            let was = before.settings.account_view(account_id.0@);
            let now = after.settings.account_view(account_id.0@);
            &&& forall|text: Seq<char>| #[trigger]
                now.pinned_folder_ids.contains(text) <==> was.pinned_folder_ids.contains(text) && text != id@
            &&& forall|text: Seq<char>| #[trigger]
                now.expanded_folder_ids.contains(text) <==> was.expanded_folder_ids.contains(text) && text != id@
            &&& now.quick_actions == was.quick_actions
        }),
        before.mailbox.selected_folder_id.deep_view() == Some(id@)
            && before.mailbox.unified_selected_account.deep_view() == Some(account_id.0@)
            ==> after.mailbox.selected_folder_id is None,
        before.mailbox.selected_folder_id.deep_view() != Some(id@) ==> after.mailbox.selected_folder_id
            == before.mailbox.selected_folder_id,
        after.effects.deep_view().contains(EffectView::SaveSettings),
        after.effects.deep_view().last() == (EffectView::LoadFolders { account_id: account_id.0@ }),
{
    let was = before.settings.account_view(account_id.0@);
    lemma_kept(
        folders_of(before.mailbox.folders_by_account, account_id.0@),
        crate::folder_events::folder_other(id@),
    );
    lemma_kept(was.pinned_folder_ids, crate::settings::other_text(id@));
    lemma_kept(was.expanded_folder_ids, crate::settings::other_text(id@));
    assert(after.effects.deep_view()[before.effects.deep_view().len() as int] == EffectView::SaveSettings);
}

/// A folder that was renamed has its new name and id in the tree of its account; pins,
/// unfoldings and quick actions that named it name it by its new id, and a list that shows it
/// goes on to show it.
pub proof fn law_renamed_folders_are_followed(
    before: AviaryApp,
    after: AviaryApp,
    account_id: AccountId,
    id: String,
    new_id: Option<String>,
    new_name: String,
)
    requires
        before.event_done(after, Evt::Folder(FolderEvt::FolderRenamed { account_id, id, new_id, new_name })),
    ensures
        ({
            let to = if new_id is Some {
                new_id->0@
            } else {
                id@
            };
            let was = folders_of(before.mailbox.folders_by_account, account_id.0@);
            let now = folders_of(after.mailbox.folders_by_account, account_id.0@);
            let old_account = before.settings.account_view(account_id.0@);
            let new_account = after.settings.account_view(account_id.0@);
            &&& now.len() == was.len()
            &&& forall|i: int|
                0 <= i < was.len() && (#[trigger] was[i]).id == id@ && (forall|j: int|
                    0 <= j < i ==> (#[trigger] was[j]).id != id@) ==> now[i].id == to && now[i].display_name
                    == new_name@
            &&& forall|i: int|
                0 <= i < was.len() && (#[trigger] was[i]).id != id@ ==> now[i].id == was[i].id && now[i].display_name
                    == was[i].display_name
            &&& forall|i: int|
                0 <= i < was.len() ==> (#[trigger] now[i]).parent_id == (if was[i].parent_id == Some(id@) {
                    Some(to)
                } else {
                    was[i].parent_id
                })
            &&& new_account.pinned_folder_ids.len() == old_account.pinned_folder_ids.len()
            &&& forall|i: int|
                0 <= i < old_account.pinned_folder_ids.len() ==> #[trigger] new_account.pinned_folder_ids[i] == (
                if old_account.pinned_folder_ids[i] == id@ {
                    to
                } else {
                    old_account.pinned_folder_ids[i]
                })
            &&& new_account.expanded_folder_ids.len() == old_account.expanded_folder_ids.len()
            &&& forall|i: int|
                0 <= i < old_account.expanded_folder_ids.len() ==> #[trigger] new_account.expanded_folder_ids[i] == (
                if old_account.expanded_folder_ids[i] == id@ {
                    to
                } else {
                    old_account.expanded_folder_ids[i]
                })
            &&& new_account.quick_actions.len() == old_account.quick_actions.len()
            &&& forall|i: int|
                0 <= i < old_account.quick_actions.len() ==> #[trigger] new_account.quick_actions[i] == (QuickActionView {
                    move_to_folder_id: if old_account.quick_actions[i].move_to_folder_id == Some(id@) {
                        Some(to)
                    } else {
                        old_account.quick_actions[i].move_to_folder_id
                    },
                    ..old_account.quick_actions[i]
                })
            &&& after.mailbox.selected_folder_id.deep_view() == (if before.mailbox.selected_folder_id.deep_view() == Some(
                id@,
            ) && before.mailbox.unified_selected_account.deep_view() == Some(account_id.0@) {
                Some(to)
            } else {
                before.mailbox.selected_folder_id.deep_view()
            })
        }),
        after.effects.deep_view().contains(EffectView::SaveSettings),
{
    let was = folders_of(before.mailbox.folders_by_account, account_id.0@);
    lemma_first_index(was, folder_named(id@));
    assert(after.effects.deep_view()[before.effects.deep_view().len() as int] == EffectView::SaveSettings);
}

/// Whether a list is as it was but for one message, which is gone.
pub open spec fn gone_from(old_list: Seq<MessageHeaderView>, new_list: Seq<MessageHeaderView>, id: Seq<char>) -> bool {
    forall|x: MessageHeaderView| #[trigger] new_list.contains(x) <==> old_list.contains(x) && x.id != id
}

/// A message that was moved is no longer in the list nor among the results; all others are.
/// What was pinned goes on to be pinned by its new id, and the folders are loaded again
/// unless more answers of its batch are to come.
pub proof fn law_moved_messages_leave_the_list(
    before: AviaryApp,
    after: AviaryApp,
    account_id: AccountId,
    message_id: String,
    target_folder_id: String,
    new_id: Option<String>,
    reply: BulkReply,
)
    requires
        before.event_done(
            after,
            Evt::Outbox(OutboxEvt::MessageMoved { account_id, message_id, target_folder_id, new_id, reply }),
        ),
    ensures
        gone_from(before.mailbox.messages.deep_view(), after.mailbox.messages.deep_view(), message_id@),
        gone_from(results_of(before), results_of(after), message_id@),
        ({
            let effects = after.effects.deep_view();
            let n = before.effects.deep_view().len() as int;
            &&& effects.len() >= n + 3
            &&& effects[n] == (EffectView::ReplacePin {
                account_id: account_id.0@,
                id: message_id@,
                new_id: new_id.deep_view(),
            })
            &&& effects[n + 1] == (EffectView::ForgetMessage { id: message_id@ })
            &&& effects[n + 2] == EffectView::UpdateTrayUnread
            &&& !(reply is Pending) ==> effects.contains(EffectView::LoadFolders { account_id: account_id.0@ })
            &&& reply is Pending ==> effects.len() == n + 3
            &&& !(reply is Pending) && before.mailbox.selected_folder_id.deep_view() == Some(target_folder_id@)
                ==> effects.contains(EffectView::SendRefresh)
        }),
        after.mailbox.viewer == before.mailbox.viewer,
        after.settings == before.settings,
{
    let p = crate::headers::other_message_id(message_id@);
    lemma_kept(before.mailbox.messages.deep_view(), p);
    lemma_kept(results_of(before), p);
    let effects = after.effects.deep_view();
    let n = before.effects.deep_view().len() as int;
    let reloads = before.reload_asks(account_id.0@, target_folder_id@, reply);
    assert forall|i: int| 0 <= i < reloads.len() implies #[trigger] effects[n + 3 + i] == reloads[i] by {}
    if !(reply is Pending) {
        assert(effects[n + 3 + reloads.len() - 1] == reloads[reloads.len() - 1]);
        assert(effects[n + 3] == reloads[0]);
    }
}

/// A message that was deleted is no longer in the list nor among the results; all others
/// are. It is not pinned any more.
pub proof fn law_deleted_messages_leave_the_list(
    before: AviaryApp,
    after: AviaryApp,
    account_id: AccountId,
    id: String,
    reply: BulkReply,
)
    requires
        before.event_done(after, Evt::Outbox(OutboxEvt::MessageDeleted { account_id, id, reply })),
    ensures
        gone_from(before.mailbox.messages.deep_view(), after.mailbox.messages.deep_view(), id@),
        gone_from(results_of(before), results_of(after), id@),
        ({
            let effects = after.effects.deep_view();
            let n = before.effects.deep_view().len() as int;
            &&& effects.len() >= n + 3
            &&& effects[n] == (EffectView::SetPinned { account_id: account_id.0@, id: id@, pinned: false })
            &&& effects[n + 1] == (EffectView::ForgetMessage { id: id@ })
            &&& effects[n + 2] == EffectView::UpdateTrayUnread
        }),
        after.mailbox.viewer == before.mailbox.viewer,
{
    let p = crate::headers::other_message_id(id@);
    lemma_kept(before.mailbox.messages.deep_view(), p);
    lemma_kept(results_of(before), p);
}

/// How a batch ended is told once: a success only where all went through and the user asked
/// for the batch, an error where nothing did, and a warning where something did and
/// something did not; both of these stay and count what the batch counted.
pub proof fn law_batches_are_told_how_they_ended(completion: BulkCompletion)
    ensures
        completion.failed == 0 && completion.message@.len() == 0 ==> completion.notices().len() == 0,
        completion.failed > 0 || completion.message@.len() > 0 ==> completion.notices().len() == 1
            && completion.notices()[0] is Toast,
        completion.failed == 0 && completion.message@.len() > 0 ==> {
            let notice = completion.notices()[0]->notice;
            notice.kind == ToastKind::Success && !notice.stays && notice.text == (NoticeTextView::Plain {
                text: completion.message@,
            })
        },
        completion.failed > 0 ==> {
            let notice = completion.notices()[0]->notice;
            &&& notice.stays
            &&& notice.kind == ToastKind::Error <==> completion.succeeded == 0
            &&& notice.kind == ToastKind::Warning <==> completion.succeeded > 0
            &&& notice.text is Counted
            &&& notice.text->succeeded == completion.succeeded
            &&& notice.text->failed == completion.failed
            &&& notice.text->total == completion.total
        },
{
}

/// A change that was refused for good is taken back: with the header that was confirmed
/// last, that message stands in the list with that header, wherever it stands among the
/// results it has that header, and the other messages are as they were.
pub proof fn law_refused_changes_are_taken_back(
    before: AviaryApp,
    after: AviaryApp,
    account_id: AccountId,
    message_id: String,
    kind: MutationKind,
    header: MessageHeader,
    error: String,
    reply: BulkReply,
)
    requires
        before.event_done(
            after,
            Evt::Outbox(
                OutboxEvt::MutationFailed { account_id, message_id, kind, header: Some(header), error, reply },
            ),
        ),
        before.relevant(account_id.0@),
        header.account_id.0@ == account_id.0@,
    ensures
        after.mailbox.messages.deep_view().contains(header.deep_view()),
        forall|x: MessageHeaderView|
            x.reference() != header.deep_view().reference() ==> (#[trigger] after.mailbox.messages.deep_view().contains(x)
                <==> before.mailbox.messages.deep_view().contains(x)),
        falls(after.mailbox.messages.deep_view()),
        lists(results_of(before), header.deep_view().reference()) ==> results_of(after).contains(header.deep_view()),
        results_of(after).len() == results_of(before).len(),
        before.mailbox.viewer.selected.deep_view() is Some ==> {
            let was = before.mailbox.viewer.selected.deep_view()->0;
            let now = after.mailbox.viewer.selected.deep_view()->0;
            &&& after.mailbox.viewer.selected.deep_view() is Some
            &&& was.header.reference() == header.deep_view().reference() ==> now == (MessageView {
                header: header.deep_view(),
                ..was
            })
            &&& was.header.reference() != header.deep_view().reference() ==> now == was
        },
        reply is Single ==> after.effects.deep_view().last() == EffectView::SendRefresh,
{
    let h = header.deep_view();
    let r = MessageRefView { account_id: account_id.0@, id: h.id };
    assert(r == h.reference());
    let old_list = before.mailbox.messages.deep_view();
    let unsorted = placed(old_list, r, h);
    lemma_first_index(old_list, is_message(r));
    lemma_first_index(results_of(before), is_message(r));
    lemma_sorting_keeps(unsorted, newest_first());
    lemma_stable_sort(unsorted, newest_first());
    crate::headers::law_newest_first(unsorted);
    match crate::lists::first_index(old_list, is_message(r)) {
        Some(i) => {
            assert(unsorted[i] == h);
            assert forall|x: MessageHeaderView| x.reference() != r implies (unsorted.contains(x) <==> old_list.contains(x)) by {
                if old_list.contains(x) {
                    let k = choose|k: int| 0 <= k < old_list.len() && old_list[k] == x;
                    assert(unsorted[k] == x);
                }
                if unsorted.contains(x) {
                    let k = choose|k: int| 0 <= k < unsorted.len() && unsorted[k] == x;
                    assert(old_list[k] == x);
                }
            }
        },
        None => {
            assert(unsorted[old_list.len() as int] == h);
            assert forall|x: MessageHeaderView| x.reference() != r implies (unsorted.contains(x) <==> old_list.contains(x)) by {
                if old_list.contains(x) {
                    let k = choose|k: int| 0 <= k < old_list.len() && old_list[k] == x;
                    assert(unsorted[k] == x);
                }
                if unsorted.contains(x) {
                    let k = choose|k: int| 0 <= k < unsorted.len() && unsorted[k] == x;
                    assert(old_list[k] == x);
                }
            }
        },
    }
    assert(unsorted.contains(h));
    if lists(results_of(before), r) {
        let i = crate::lists::first_index(results_of(before), is_message(r))->0;
        assert(results_of(after)[i] == h);
    }
}

/// An invitation that was answered is no longer waited for, and the answer shows in the
/// reading pane if the message is there; what waits for other messages goes on to.
pub proof fn law_answered_invitations_show_the_answer(
    before: AviaryApp,
    after: AviaryApp,
    account_id: AccountId,
    message_id: String,
    response: InvitationResponse,
)
    requires
        before.event_done(
            after,
            Evt::Calendar(CalendarEvt::InvitationResponded { account_id, message_id, response }),
        ),
    ensures
        ({
            let reference = MessageRefView { account_id: account_id.0@, id: message_id@ };
            &&& forall|other: MessageRefView| #[trigger]
                after.pending.invitation_responses.deep_view().contains(other)
                    <==> before.pending.invitation_responses.deep_view().contains(other) && other != reference
            &&& match (before.mailbox.viewer.selected.deep_view(), after.mailbox.viewer.selected.deep_view()) {
                (Some(was), Some(now)) => {
                    &&& was.header.reference() == reference && was.invitation is Some ==> now == (MessageView {
                        invitation: Some(response),
                        ..was
                    })
                    &&& was.header.reference() != reference || was.invitation is None ==> now == was
                },
                (None, None) => true,
                _ => false,
            }
        }),
        after.effects.deep_view().contains(EffectView::ReloadCalendar),
{
    let reference = MessageRefView { account_id: account_id.0@, id: message_id@ };
    lemma_kept(before.pending.invitation_responses.deep_view(), crate::app::other_reference(reference));
    assert(after.effects.deep_view()[before.effects.deep_view().len() as int] == EffectView::ReloadCalendar);
}

/// An event that was deleted is gone from the calendar and is no longer being deleted; the
/// others stay. It is not selected any more.
pub proof fn law_deleted_events_are_gone(before: AviaryApp, after: AviaryApp, account_id: AccountId, event_id: String)
    requires
        before.event_done(after, Evt::Calendar(CalendarEvt::CalendarEventDeleted { account_id, event_id })),
    ensures
        forall|event: CalendarEventView| #[trigger]
            after.calendar.events.deep_view().contains(event) <==> before.calendar.events.deep_view().contains(event) && !(
            event.account_id == account_id.0@ && event.id == event_id@),
        forall|key: (Seq<char>, Seq<char>)| #[trigger]
            after.calendar.deleting.deep_view().contains(key) <==> before.calendar.deleting.deep_view().contains(key) && key
                != (account_id.0@, event_id@),
        after.calendar.selected.deep_view() != Some(event_id@),
        before.calendar.selected.deep_view() != Some(event_id@) ==> after.calendar.selected == before.calendar.selected,
        after.calendar.moving == before.calendar.moving,
{
    lemma_kept(before.calendar.events.deep_view(), crate::calendar_events::other_event(account_id.0@, event_id@));
    lemma_kept(before.calendar.deleting.deep_view(), crate::calendar_events::other_event_key(account_id.0@, event_id@));
}

/// An event that was not deleted after all is no longer being deleted, and stays.
pub proof fn law_events_that_were_not_deleted_stay(
    before: AviaryApp,
    after: AviaryApp,
    account_id: AccountId,
    event_id: String,
    error: String,
)
    requires
        before.event_done(
            after,
            Evt::Calendar(CalendarEvt::CalendarEventDeleteError { account_id, event_id, error }),
        ),
    ensures
        after.calendar.events == before.calendar.events,
        after.calendar.selected == before.calendar.selected,
        forall|key: (Seq<char>, Seq<char>)| #[trigger]
            after.calendar.deleting.deep_view().contains(key) <==> before.calendar.deleting.deep_view().contains(key) && key
                != (account_id.0@, event_id@),
        after.effects.deep_view().last() == (EffectView::NotifyError { error: error@ }),
{
    lemma_kept(before.calendar.deleting.deep_view(), crate::calendar_events::other_event_key(account_id.0@, event_id@));
}

/// An event that was moved, or could not be, is no longer being moved.
pub proof fn law_moves_of_events_end(before: AviaryApp, after: AviaryApp, account_id: AccountId, event_id: String)
    requires
        before.event_done(after, Evt::Calendar(CalendarEvt::CalendarEventMoved { account_id, event_id })),
    ensures
        after.calendar.events == before.calendar.events,
        forall|key: (Seq<char>, Seq<char>)| #[trigger]
            after.calendar.moving.deep_view().contains(key) <==> before.calendar.moving.deep_view().contains(key) && key
                != (account_id.0@, event_id@),
        after.calendar.deleting == before.calendar.deleting,
{
    lemma_kept(before.calendar.moving.deep_view(), crate::calendar_events::other_event_key(account_id.0@, event_id@));
}

proof fn lemma_events_kept(events: Seq<CalendarEventView>)
    ensures
        forall|x: CalendarEventView| #[trigger] stable_sort(events, earlier_first()).contains(x) <==> events.contains(x),
        forall|i: int, j: int|
            #![trigger stable_sort(events, earlier_first())[i], stable_sort(events, earlier_first())[j]]
            0 <= i < j < events.len() ==> stable_sort(events, earlier_first())[i].start <= stable_sort(
                events,
                earlier_first(),
            )[j].start,
{
    broadcast use vstd::seq_lib::group_to_multiset_ensures;

    let sorted = stable_sort(events, earlier_first());
    lemma_stable_sort(events, earlier_first());
    assert forall|x: CalendarEventView| #[trigger] sorted.contains(x) <==> events.contains(x) by {
        assert(sorted.contains(x) <==> sorted.to_multiset().count(x) > 0);
        assert(events.contains(x) <==> events.to_multiset().count(x) > 0);
    }
}

/// An event that could not be moved goes back: it stands where it was before, all other
/// events stay, and they are in order of their beginnings.
pub proof fn law_refused_moves_go_back(
    before: AviaryApp,
    after: AviaryApp,
    account_id: AccountId,
    event_id: String,
    previous_start: i128,
    previous_end: i128,
    error: String,
)
    requires
        before.event_done(
            after,
            Evt::Calendar(
                CalendarEvt::CalendarEventMoveError { account_id, event_id, previous_start, previous_end, error },
            ),
        ),
    ensures
        forall|event: CalendarEventView|
            !(event.account_id == account_id.0@ && event.id == event_id@) ==> (#[trigger] after.calendar.events.deep_view().contains(
                event,
            ) <==> before.calendar.events.deep_view().contains(event)),
        forall|i: int|
            0 <= i < before.calendar.events.deep_view().len() && is_event(account_id.0@, event_id@)(
                #[trigger] before.calendar.events.deep_view()[i],
            ) && (forall|j: int|
                0 <= j < i ==> !is_event(account_id.0@, event_id@)(#[trigger] before.calendar.events.deep_view()[j]))
                ==> after.calendar.events.deep_view().contains(
                CalendarEventView {
                    start: previous_start,
                    end: previous_end,
                    ..before.calendar.events.deep_view()[i]
                },
            ),
        forall|i: int, j: int|
            #![trigger after.calendar.events.deep_view()[i], after.calendar.events.deep_view()[j]]
            0 <= i < j < after.calendar.events.deep_view().len() ==> after.calendar.events.deep_view()[i].start
                <= after.calendar.events.deep_view()[j].start,
        !after.calendar.moving.deep_view().contains((account_id.0@, event_id@)),
{
    let was = before.calendar.events.deep_view();
    let p = is_event(account_id.0@, event_id@);
    lemma_kept(before.calendar.moving.deep_view(), crate::calendar_events::other_event_key(account_id.0@, event_id@));
    lemma_first_index(was, p);
    let changed = match crate::lists::first_index(was, p) {
        Some(i) => was.update(i, CalendarEventView { start: previous_start, end: previous_end, ..was[i] }),
        None => was,
    };
    lemma_events_kept(changed);
    lemma_stable_sort(changed, earlier_first());
    assert forall|event: CalendarEventView| !p(event) implies (changed.contains(event) <==> was.contains(event)) by {
        if was.contains(event) {
            let k = choose|k: int| 0 <= k < was.len() && was[k] == event;
            assert(changed[k] == event);
        }
        if changed.contains(event) {
            let k = choose|k: int| 0 <= k < changed.len() && changed[k] == event;
            assert(was[k] == event);
        }
    }
    if crate::lists::first_index(was, p) is Some {
        let i = crate::lists::first_index(was, p)->0;
        assert(changed[i] == (CalendarEventView { start: previous_start, end: previous_end, ..was[i] }));
        assert(changed.contains(changed[i]));
    }
}

/// An event that was saved closes its form and is told as new or as changed.
pub proof fn law_saved_events_close_their_form(
    before: AviaryApp,
    after: AviaryApp,
    account_id: AccountId,
    request_id: u64,
    updated: bool,
)
    requires
        before.event_done(after, Evt::Calendar(CalendarEvt::EventSaved { account_id, request_id, updated })),
    ensures
        after.effects.deep_view().len() == before.effects.deep_view().len() + 3,
        after.effects.deep_view()[before.effects.deep_view().len() as int] == (EffectView::CloseEventCompose { request_id }),
        after.effects.deep_view()[before.effects.deep_view().len() as int + 1] == EffectView::ReloadCalendar,
        after.effects.deep_view().last() == crate::app::told(
            ToastKind::Success,
            if updated {
                "toast-event-updated"@
            } else {
                "toast-event-created"@
            },
        ),
        after.calendar == before.calendar,
{
}

/// A mail that was sent closes its composer; one of a quick action has none. A reply or a
/// forward whose own copy is still to be had is asked for.
pub proof fn law_sent_mail_closes_its_composer(
    before: AviaryApp,
    after: AviaryApp,
    account_id: AccountId,
    compose_id: u64,
    sent_message: Option<SentMessage>,
    unresolved: bool,
)
    requires
        before.event_done(
            after,
            Evt::Compose(ComposeEvt::MailSent { account_id, compose_id, sent_message, unresolved }),
        ),
    ensures
        ({
            let effects = after.effects.deep_view();
            let n = before.effects.deep_view().len() as int;
            &&& compose_id < 0x8000_0000_0000_0000 ==> effects.contains(EffectView::CloseCompose { compose_id })
            &&& compose_id >= 0x8000_0000_0000_0000 ==> forall|e: int|
                n <= e < effects.len() ==> !(#[trigger] effects[e] is CloseCompose)
            &&& sent_message is Some && unresolved ==> effects.len() > n && effects[n] == (EffectView::FetchSentCopy {
                account_id: sent_message->0.deep_view().message.header.account_id,
                related_to: sent_message->0.deep_view().related_to,
                snapshot_id: sent_message->0.deep_view().message.header.id,
                sent_id: sent_message->0.deep_view().sent_id,
                internet_message_id: sent_message->0.deep_view().internet_message_id,
            })
            &&& sent_message is None || !unresolved ==> forall|e: int|
                n <= e < effects.len() ==> !(#[trigger] effects[e] is FetchSentCopy)
        }),
        sent_message is None ==> after.mailbox.sent.messages.deep_view() == before.mailbox.sent.messages.deep_view(),
{
    let effects = after.effects.deep_view();
    let n = before.effects.deep_view().len() as int;
    let asks = AviaryApp::sent_asks(compose_id, sent_message.deep_view(), unresolved);
    assert forall|i: int| 0 <= i < asks.len() implies #[trigger] effects[n + i] == asks[i] by {}
    if compose_id < 0x8000_0000_0000_0000 {
        assert(!is_execution(compose_id));
        assert(effects[n + asks.len() - 2] == (EffectView::CloseCompose { compose_id }));
    }
}

/// Whether headers are as they were but that those of one message are read or flagged as
/// they were told to be.
pub open spec fn only_marked(
    old_list: Seq<MessageHeaderView>,
    new_list: Seq<MessageHeaderView>,
    reference: MessageRefView,
    read: Option<bool>,
    flagged: Option<bool>,
) -> bool {
    &&& new_list.len() == old_list.len()
    &&& forall|i: int|
        0 <= i < old_list.len() ==> {
            let was = old_list[i];
            let now = #[trigger] new_list[i];
            &&& was.reference() != reference ==> now == was
            &&& was.reference() == reference ==> now == (MessageHeaderView {
                is_read: now.is_read,
                is_flagged: now.is_flagged,
                ..was
            })
            &&& was.reference() == reference ==> now.is_read == (if read is Some {
                read->0
            } else {
                was.is_read
            })
            &&& was.reference() == reference ==> now.is_flagged == (if flagged is Some {
                flagged->0
            } else {
                was.is_flagged
            })
        }
}

/// What a step of a quick action made of a message shows in the list, in the results and in
/// the reading pane: read and flagged as it was told, each only where it was told.
pub proof fn law_states_of_messages_show_everywhere(
    before: AviaryApp,
    after: AviaryApp,
    account_id: AccountId,
    message_id: String,
    read: Option<bool>,
    flagged: Option<bool>,
)
    requires
        before.event_done(
            after,
            Evt::Quick(QuickEvt::QuickActionMessageState { account_id, message_id, read, flagged }),
        ),
    ensures
        ({
            let reference = MessageRefView { account_id: account_id.0@, id: message_id@ };
            &&& only_marked(
                before.mailbox.messages.deep_view(),
                after.mailbox.messages.deep_view(),
                reference,
                read,
                flagged,
            )
            &&& only_marked(results_of(before), results_of(after), reference, read, flagged)
            &&& match (before.mailbox.viewer.selected.deep_view(), after.mailbox.viewer.selected.deep_view()) {
                (Some(was), Some(now)) => {
                    &&& now == (MessageView { header: now.header, ..was })
                    &&& only_marked(seq![was.header], seq![now.header], reference, read, flagged)
                },
                (None, None) => true,
                _ => false,
            }
        }),
        after.effects == before.effects,
{
}

/// An action that is scheduled is announced, scheduled and told, in that order, for its
/// message and under an id that no composer has. It waits as long as actions do, and if it
/// sends something at least as long as mail does. One that has nothing to do is not.
pub proof fn law_scheduled_actions_wait(
    before: AviaryApp,
    after: AviaryApp,
    action: QuickActionView,
    header: MessageHeaderView,
    source: Option<Seq<char>>,
    mail: Option<(MessageView, crate::recipes::QuotedMailView)>,
)
    requires
        before.scheduled(after, action, header, source, mail),
    ensures
        ({
            let steps = before.steps_of(action, header, source, mail);
            let effects = after.effects.deep_view();
            let n = before.effects.deep_view().len() as int;
            &&& steps.len() == 0 ==> effects == before.effects.deep_view()
            &&& steps.len() > 0 ==> {
                &&& effects.len() == n + 3
                &&& effects[n] is BeginQuickAction
                &&& effects[n + 1] is ScheduleQuickAction
                &&& effects[n + 2] is Toast
                &&& effects[n + 1]->ScheduleQuickAction_account_id == header.account_id
                &&& effects[n + 1]->ScheduleQuickAction_execution.message_id == header.id
                &&& effects[n + 1]->ScheduleQuickAction_execution.steps == steps
                &&& effects[n + 1]->ScheduleQuickAction_execution.action_name == action.name
                &&& effects[n + 1]->ScheduleQuickAction_execution.execution_id >= 0x8000_0000_0000_0000
                &&& effects[n]->BeginQuickAction_execution == effects[n + 1]->ScheduleQuickAction_execution
                &&& effects[n]->BeginQuickAction_account_id == header.account_id
                &&& effects[n + 1]->ScheduleQuickAction_delay_secs >= before.settings.global.action_delay()
                &&& (exists|i: int|
                    0 <= i < steps.len() && (#[trigger] steps[i] is Forward || steps[i] is Reply)) ==> effects[n
                    + 1]->ScheduleQuickAction_delay_secs >= before.settings.global.send_delay_secs
                &&& effects[n + 1]->ScheduleQuickAction_delay_secs == before.settings.global.action_delay() || effects[n + 1]->ScheduleQuickAction_delay_secs
                    == before.settings.global.send_delay_secs
            }
        }),
        after.mailbox == before.mailbox,
{
    let steps = before.steps_of(action, header, source, mail);
    if exists|i: int| 0 <= i < steps.len() && (#[trigger] steps[i] is Forward || steps[i] is Reply) {
        let i = choose|i: int| 0 <= i < steps.len() && (#[trigger] steps[i] is Forward || steps[i] is Reply);
        assert(crate::recipes::step_sends()(steps[i]));
        assert(steps.any(crate::recipes::step_sends()));
    }
}

/// An execution that ended is taken off, one that was cancelled is taken back, and one that
/// failed offers what is left; each under its own id.
pub proof fn law_executions_end_under_their_id(
    before: AviaryApp,
    after: AviaryApp,
    account_id: AccountId,
    id: u64,
    action_name: String,
    cancelled: bool,
)
    requires
        !cancelled ==> before.event_done(
            after,
            Evt::Quick(QuickEvt::QuickActionCompleted { account_id, id, action_name }),
        ),
        cancelled ==> before.event_done(
            after,
            Evt::Quick(QuickEvt::QuickActionCancelled { account_id, id, action_name }),
        ),
    ensures
        after.effects.deep_view().len() == before.effects.deep_view().len() + 2,
        after.effects.deep_view()[before.effects.deep_view().len() as int] == (if cancelled {
            EffectView::CancelQuickAction { execution_id: id }
        } else {
            EffectView::CompleteQuickAction { execution_id: id }
        }),
        after.mailbox == before.mailbox,
        after.quick_actions == before.quick_actions,
{
}

} // verus!
