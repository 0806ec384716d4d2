//! What choices of the user mean: what the list shows, what is selected, and what clicks on
//! notifications and on the notification area ask for.
use crate::app::other_reference;
use crate::mail_laws::{lemma_kept, results_of};
use crate::model::{MessageHeaderView, MessageRef, MessageRefView};
use crate::requests::{tray_asks, NotificationActionKind, TrayAction};
use crate::selection::with_refs;
use crate::state::{AviaryApp, EffectView, MainView};
use vstd::prelude::*;

verus! {

/// The list is made of the results of a search where there are some, and of the folder
/// otherwise. It shows exactly those of these messages that pass the filters: put off or not
/// as is asked for, flagged where only flagged ones are, and with all the tags of the filter.
pub proof fn law_the_list_shows_what_passes(app: AviaryApp)
    ensures
        app.mailbox.search.results is Some ==> app.list_source() == results_of(app),
        app.mailbox.search.results is None ==> app.list_source() == app.mailbox.messages.deep_view(),
        forall|x: MessageHeaderView| #[trigger] app.filtered().contains(x) <==> app.list_source().contains(x) && (
        app.mailbox.filters.show_snoozed_only == app.is_snoozed(x)) && (app.mailbox.filters.show_flagged_only
            ==> x.is_flagged) && app.passes_tags(x),
        app.visible_refs().len() == app.filtered().len(),
        forall|i: int|
            0 <= i < app.filtered().len() ==> #[trigger] app.visible_refs()[i].id == app.filtered()[i].id
                && app.visible_refs()[i].account_id == app.filtered()[i].account_id,
{
    lemma_kept(app.list_source(), app.shown());
}

/// A filter of tags lets through messages of accounts that it names, with every tag that it
/// names for the account; without a filter all messages pass.
pub proof fn law_tag_filters_ask_for_every_tag(app: AviaryApp, header: MessageHeaderView)
    ensures
        app.mailbox.filters.tag_filters@ == Map::<Seq<char>, Vec<String>>::empty() ==> app.passes_tags(header),
        app.mailbox.filters.tag_filters@ != Map::<Seq<char>, Vec<String>>::empty() ==> (app.passes_tags(header) <==> {
            let filters = app.mailbox.filters.tag_filters@;
            &&& filters.contains_key(header.account_id)
            &&& forall|i: int|
                0 <= i < filters[header.account_id].deep_view().len() ==> header.tags.contains(
                    app.message_key(header.account_id, #[trigger] filters[header.account_id].deep_view()[i]),
                )
        }),
{
    let filters = app.mailbox.filters.tag_filters@;
    if filters != Map::<Seq<char>, Vec<String>>::empty() && filters.contains_key(header.account_id) {
        let ids = filters[header.account_id].deep_view();
        if app.passes_tags(header) {
            assert forall|i: int| 0 <= i < ids.len() implies header.tags.contains(
                app.message_key(header.account_id, #[trigger] ids[i]),
            ) by {
                assert(app.carries(header, ids[i]));
            }
        }
    }
}

proof fn lemma_with_refs(refs: Seq<MessageRefView>, more: Seq<MessageRefView>)
    ensures
        forall|r: MessageRefView| #[trigger] with_refs(refs, more).contains(r) <==> refs.contains(r) || more.contains(r),
        refs.no_duplicates() ==> with_refs(refs, more).no_duplicates(),
    decreases more.len(),
{
    let all = with_refs(refs, more);
    if more.len() > 0 {
        let front = with_refs(refs, more.drop_last());
        lemma_with_refs(refs, more.drop_last());
        assert forall|r: MessageRefView| #[trigger] all.contains(r) <==> refs.contains(r) || more.contains(r) by {
            assert(front.contains(r) <==> refs.contains(r) || more.drop_last().contains(r));
            if front.contains(r) {
                let k = choose|k: int| 0 <= k < front.len() && front[k] == r;
                assert(all[k] == r);
            }
            if more.drop_last().contains(r) {
                let k = choose|k: int| 0 <= k < more.drop_last().len() && more.drop_last()[k] == r;
                assert(more[k] == r);
            }
            if r == more.last() {
                assert(more[more.len() - 1] == r);
                if !front.contains(r) {
                    assert(all[front.len() as int] == r);
                }
            }
            if all.contains(r) && !front.contains(r) {
                let k = choose|k: int| 0 <= k < all.len() && all[k] == r;
                if k < front.len() {
                    assert(front[k] == r);
                }
            }
            if more.contains(r) && r != more.last() {
                let k = choose|k: int| 0 <= k < more.len() && more[k] == r;
                assert(more.drop_last()[k] == r);
            }
        }
    }
}

/// Selecting adds exactly what was chosen to what is selected, each once: one message, the
/// messages of a range, or all that the list shows. Taking one off takes off no other.
pub proof fn law_selecting_adds_what_was_chosen(
    selection: (Seq<MessageRefView>, Option<MessageRefView>),
    reference: MessageRefView,
    visible: Seq<MessageRefView>,
)
    ensures
        forall|r: MessageRefView| #[trigger]
            AviaryApp::toggled(selection, reference, true).0.contains(r) <==> selection.0.contains(r) || r == reference,
        forall|r: MessageRefView| #[trigger]
            AviaryApp::toggled(selection, reference, false).0.contains(r) <==> selection.0.contains(r) && r != reference,
        AviaryApp::toggled(selection, reference, true).1 == Some(reference),
        AviaryApp::toggled(selection, reference, false).1 != Some(reference),
        selection.1 != Some(reference) ==> AviaryApp::toggled(selection, reference, false).1 == selection.1,
        forall|r: MessageRefView| #[trigger]
            with_refs(selection.0, visible).contains(r) <==> selection.0.contains(r) || visible.contains(r),
        forall|r: MessageRefView| #[trigger]
            AviaryApp::extended(selection, visible, reference).0.contains(r) <==> selection.0.contains(r)
                || crate::selection::range_refs(visible, selection.1, reference).contains(r),
        selection.1 is Some ==> AviaryApp::extended(selection, visible, reference).1 == selection.1,
        selection.0.no_duplicates() ==> with_refs(selection.0, visible).no_duplicates(),
{
    lemma_kept(selection.0, other_reference(reference));
    lemma_with_refs(selection.0, visible);
    lemma_with_refs(selection.0, crate::selection::range_refs(visible, selection.1, reference));
    let one = AviaryApp::toggled(selection, reference, true).0;
    assert forall|r: MessageRefView| #[trigger] one.contains(r) <==> selection.0.contains(r) || r == reference by {
        if !selection.0.contains(reference) {
            assert(one[selection.0.len() as int] == reference);
        }
        if selection.0.contains(r) {
            let k = choose|k: int| 0 <= k < selection.0.len() && selection.0[k] == r;
            assert(one[k] == r);
        }
        if one.contains(r) && r != reference {
            let k = choose|k: int| 0 <= k < one.len() && one[k] == r;
            assert(selection.0[k] == r);
        }
    }
}

/// What is done to the selection is done to messages that the list shows and that are
/// selected, and to no others.
pub proof fn law_the_selection_is_what_is_shown_and_selected(app: AviaryApp)
    ensures
        forall|x: MessageHeaderView| #[trigger]
            app.selected_headers().contains(x) <==> app.filtered().contains(x)
                && app.mailbox.selection.messages.deep_view().contains(x.reference()),
{
    lemma_kept(app.filtered(), app.is_selected());
}

/// A click on a notification brings the window to the front before all else. Its buttons do
/// what they say, to the message that the notification is about: opening and answering lead
/// to the mail view and wait for that message, reading marks it as read, filing files it.
pub proof fn law_notifications_do_what_they_say(
    before: AviaryApp,
    after: AviaryApp,
    kind: NotificationActionKind,
    message: MessageRef,
)
    requires
        after.asked(before, AviaryApp::notification_asks(kind, Some(message.deep_view()))),
        before.notification_done(after, kind, Some(message)),
    ensures
        ({
            let effects = after.effects.deep_view();
            let n = before.effects.deep_view().len() as int;
            let r = message.deep_view();
            let opens = kind == NotificationActionKind::Open || kind == NotificationActionKind::Reply;
            &&& effects[n] == EffectView::ActivateWindow
            &&& opens || kind == NotificationActionKind::ShowInbox ==> after.view == MainView::Mail
            &&& opens ==> after.pending.notification_open.deep_view() == Some(r) && effects.last() == (
            EffectView::OpenMessage { account_id: r.account_id, id: r.id })
            &&& kind == NotificationActionKind::Reply ==> after.pending.reply_id.deep_view() == Some(r.id)
            &&& kind != NotificationActionKind::Reply ==> after.pending.reply_id == before.pending.reply_id
            &&& !opens ==> after.pending.notification_open == before.pending.notification_open
            &&& kind == NotificationActionKind::ShowInbox ==> effects.last() == EffectView::SendRefresh
            &&& kind == NotificationActionKind::MarkRead ==> effects.last() == (EffectView::MarkRead {
                account_id: r.account_id,
                id: r.id,
                read: true,
            })
            &&& kind == NotificationActionKind::MarkRead ==> {
                let was = before.mailbox.messages.deep_view();
                let now = after.mailbox.messages.deep_view();
                &&& now.len() == was.len()
                &&& forall|i: int|
                    0 <= i < was.len() ==> #[trigger] now[i] == (MessageHeaderView {
                        is_read: was[i].is_read || was[i].reference() == r,
                        ..was[i]
                    })
            }
            &&& kind != NotificationActionKind::MarkRead ==> after.mailbox == before.mailbox
            &&& kind == NotificationActionKind::Archive ==> effects.last() == (EffectView::Archive {
                account_id: r.account_id,
                id: r.id,
            })
        }),
{
}

/// The notification area asks for what it says.
pub proof fn law_the_notification_area_does_what_it_says()
    ensures
        tray_asks(TrayAction::Show) == seq![EffectView::ActivateWindow],
        tray_asks(TrayAction::Hide) == seq![EffectView::MinimizeWindow],
        tray_asks(TrayAction::Refresh) == seq![EffectView::SendRefresh],
        tray_asks(TrayAction::Quit).last() == EffectView::Quit,
        tray_asks(TrayAction::Quit).contains(EffectView::CloseTray),
{
    assert(tray_asks(TrayAction::Quit)[0] == EffectView::CloseTray);
}

} // verus!
