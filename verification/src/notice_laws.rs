//! Who hears of an event: composers, the calendar, the person who reads.
use crate::app::{account_named, of_other_account};
use crate::dispatch::{
    AccountEvt, AnswerEvt, CalendarEvt, ComposeEvt, ContactEvt, Evt, MailEvt, OtherEvt, OutboxEvt, QuickEvt, TagEvt,
};
use crate::lists::{first_index, lemma_first_index};
use crate::mail_laws::lemma_kept;
use crate::memory::{attachment_bytes, image_bytes, loaded_bodies, loaded_bytes, message_tabs, tab_bytes, weight};
use crate::model::{AccountId, AccountView, MessageHeaderView};
use crate::reading::{entry_set, keyed};
use crate::retag::law_renamed_tags_are_kept_once;
use crate::settings::InlineImageView;
use crate::state::{
    AttachmentView, AuthState, AviaryApp, CalendarEvent, EffectView, MessageView, NoticeTextView, NoticeView, Offer,
    QuickActionExecution, SenderHistoryStateView, ThreadBodyStateView, ToastKind, TopicView, ViewerTabView,
};
use vstd::prelude::*;

verus! {

/// Whether an error was told last.
pub open spec fn told_last(after: AviaryApp, error: Seq<char>) -> bool {
    after.effects.deep_view().len() > 0 && after.effects.deep_view().last() == (EffectView::NotifyError { error })
}

/// Whether all that was asked for is one thing.
pub open spec fn asked_once(before: AviaryApp, after: AviaryApp, effect: EffectView) -> bool {
    &&& after.effects.deep_view() == before.effects.deep_view().push(effect)
    &&& after == (AviaryApp { effects: after.effects, ..before })
}

/// Whether one thing was asked for, and then that something be shown for a moment.
pub open spec fn asked_and_told(before: AviaryApp, after: AviaryApp, effect: EffectView, kind: ToastKind, key: Seq<char>) -> bool {
    &&& after.effects.deep_view().len() == before.effects.deep_view().len() + 2
    &&& after.effects.deep_view().take(before.effects.deep_view().len() as int) == before.effects.deep_view()
    &&& after.effects.deep_view()[before.effects.deep_view().len() as int] == effect
    &&& after.effects.deep_view().last() == EffectView::Toast {
        notice: NoticeView {
            kind,
            text: NoticeTextView::Key { key },
            detail: None,
            stays: false,
            topic: TopicView::Nothing,
            offer: Offer::Nothing,
        },
    }
    &&& after == (AviaryApp { effects: after.effects, ..before })
}

/// Whether all that happened is that something is shown for a moment.
pub open spec fn told_once(before: AviaryApp, after: AviaryApp, kind: ToastKind, key: Seq<char>) -> bool {
    asked_once(
        before,
        after,
        EffectView::Toast {
            notice: NoticeView {
                kind,
                text: NoticeTextView::Key { key },
                detail: None,
                stays: false,
                topic: TopicView::Nothing,
                offer: Offer::Nothing,
            },
        },
    )
}

/// What was asked for before stands in front of what is asked for.
proof fn lemma_asking(before: Seq<EffectView>)
    ensures
        before + Seq::<EffectView>::empty() == before,
        forall|a: EffectView| #[trigger] (before + seq![a]) == before.push(a),
        forall|added: Seq<EffectView>| (#[trigger] (before + added)).take(before.len() as int) == before,
{
    assert(before + Seq::<EffectView>::empty() =~= before);
    assert forall|a: EffectView| #[trigger] (before + seq![a]) == before.push(a) by {
        assert(before + seq![a] =~= before.push(a));
    }
    assert forall|added: Seq<EffectView>| (#[trigger] (before + added)).take(before.len() as int) == before by {
        assert((before + added).take(before.len() as int) =~= before);
    }
}

/// A draft that was saved is reported to its composer; to the person who writes only if they
/// asked for it. One that was not goes to the composer alone if it was saved by itself.
pub proof fn law_composers_hear_of_their_drafts(
    before: AviaryApp,
    after: AviaryApp,
    account_id: AccountId,
    compose_id: u64,
    draft_id: Option<String>,
    error: String,
    autosave: bool,
)
    ensures
        before.event_done(after, Evt::Compose(ComposeEvt::DraftSaved { account_id, compose_id, draft_id, autosave }))
            ==> {
            let saved = EffectView::ComposeDraftSaved {
                account_id: account_id.0@,
                compose_id,
                draft_id: draft_id.deep_view(),
                autosave,
            };
            if autosave {
                asked_once(before, after, saved)
            } else {
                asked_and_told(before, after, saved, ToastKind::Success, "toast-draft-saved"@)
            }
        },
        before.event_done(after, Evt::Compose(ComposeEvt::DraftSaveError { account_id, compose_id, error, autosave }))
            ==> if autosave {
            asked_once(
                before,
                after,
                EffectView::ComposeDraftError { account_id: account_id.0@, compose_id, error: error@ },
            )
        } else {
            &&& told_last(after, error@)
            &&& after.effects.deep_view().len() == before.effects.deep_view().len() + 2
            &&& after.effects.deep_view()[before.effects.deep_view().len() as int] == (EffectView::ComposeError {
                compose_id,
                error: error@,
            })
        },
        before.event_done(after, Evt::Outbox(OutboxEvt::OutboxQueued { account_id, compose_id })) ==> asked_and_told(
            before,
            after,
            EffectView::ComposeQueued { compose_id },
            ToastKind::Warning,
            "outbox-queued"@,
        ),
{
    lemma_asking(before.effects.deep_view());
    assert(seq![
        EffectView::ComposeDraftSaved {
            account_id: account_id.0@,
            compose_id,
            draft_id: draft_id.deep_view(),
            autosave,
        },
    ] + Seq::<EffectView>::empty() =~= seq![
        EffectView::ComposeDraftSaved {
            account_id: account_id.0@,
            compose_id,
            draft_id: draft_id.deep_view(),
            autosave,
        },
    ]);
}

/// Text that a model wrote goes to the composer that asked for it; a translation goes to no
/// composer.
pub proof fn law_written_text_goes_to_its_composer(
    before: AviaryApp,
    after: AviaryApp,
    compose_id: u64,
    text: String,
    translated: bool,
)
    ensures
        before.event_done(
            after,
            Evt::Compose(ComposeEvt::AiMailEditChunk { compose_id, delta: text, translated }),
        ) ==> if translated {
            after.effects.deep_view() == before.effects.deep_view() && after == (AviaryApp {
                effects: after.effects,
                ..before
            })
        } else {
            asked_once(before, after, EffectView::ComposeAiChunk { compose_id, delta: text@ })
        },
        before.event_done(
            after,
            Evt::Compose(ComposeEvt::AiMailEditFinished { compose_id, markdown: text, translated }),
        ) ==> if translated {
            told_once(before, after, ToastKind::Success, "viewer-translation-done"@)
        } else {
            asked_and_told(
                before,
                after,
                EffectView::ComposeAiFinished { compose_id, markdown: text@ },
                ToastKind::Success,
                "compose-ai-done"@,
            )
        },
        before.event_done(
            after,
            Evt::Compose(ComposeEvt::AiMailEditError { compose_id, error: text, translated }),
        ) ==> {
            &&& told_last(after, text@)
            &&& translated ==> after.effects.deep_view().len() == before.effects.deep_view().len() + 1
            &&& !translated ==> after.effects.deep_view()[before.effects.deep_view().len() as int] == (
            EffectView::ComposeAiError { compose_id, error: text@ })
        },
{
    lemma_asking(before.effects.deep_view());
}

/// What failed is told, with what was said of it: mail that was not sent, windows of the
/// calendar that did not come, events that were not saved, and what has no event of its own.
pub proof fn law_failures_are_told(
    before: AviaryApp,
    after: AviaryApp,
    account_id: AccountId,
    number: u64,
    from: i128,
    to: i128,
    error: String,
)
    ensures
        before.event_done(
            after,
            Evt::Compose(ComposeEvt::MailSendError { account_id, compose_id: number, error }),
        ) ==> told_last(after, error@) && after.effects.deep_view()[before.effects.deep_view().len() as int] == (
        EffectView::ComposeError { compose_id: number, error: error@ }),
        before.event_done(
            after,
            Evt::Calendar(CalendarEvt::CalendarLoadFailed { account_id, from, to, error }),
        ) ==> told_last(after, error@) && after.effects.deep_view()[before.effects.deep_view().len() as int] == (
        EffectView::CalendarWindowFailed { scope: account_id.0@, from, to }),
        before.event_done(
            after,
            Evt::Calendar(CalendarEvt::EventSaveError { account_id, request_id: number, error }),
        ) ==> told_last(after, error@) && after.effects.deep_view()[before.effects.deep_view().len() as int] == (
        EffectView::EventComposeError { request_id: number, error: error@ }),
        before.event_done(after, Evt::Other(OtherEvt::Failure { error })) ==> {
            &&& told_last(after, error@)
            &&& !after.mailbox.pagination.loading_more
            &&& after.mailbox.messages == before.mailbox.messages
            &&& before.accounts.len() > 0 ==> after.auth == AuthState::Authenticated
        },
{
    lemma_asking(before.effects.deep_view());
}

/// A body that did not come is marked as failed, and no other body changes.
pub proof fn law_missing_bodies_are_marked(
    before: AviaryApp,
    after: AviaryApp,
    account_id: AccountId,
    id: String,
    restores: bool,
    error: String,
)
    requires
        before.event_done(after, Evt::Mail(MailEvt::ThreadMessageError { account_id, id, restores, error })),
    ensures
        told_last(after, error@),
        after.mailbox.viewer.thread_bodies.deep_view().contains((id@, ThreadBodyStateView::Error { error: error@ })),
        forall|x: (Seq<char>, ThreadBodyStateView)|
            x.0 != id@ ==> (#[trigger] after.mailbox.viewer.thread_bodies.deep_view().contains(x)
                <==> before.mailbox.viewer.thread_bodies.deep_view().contains(x)),
        after.mailbox.viewer.selected == before.mailbox.viewer.selected,
{
    lemma_entry_set(
        before.mailbox.viewer.thread_bodies.deep_view(),
        id@,
        ThreadBodyStateView::Error { error: error@ },
    );
}

proof fn lemma_entry_set<V>(entries: Seq<(Seq<char>, V)>, key: Seq<char>, value: V)
    ensures
        entry_set(entries, key, value).contains((key, value)),
        forall|x: (Seq<char>, V)|
            x.0 != key ==> (#[trigger] entry_set(entries, key, value).contains(x) <==> entries.contains(x)),
{
    let all = entry_set(entries, key, value);
    lemma_first_index(entries, keyed::<V>(key));
    let place: int = match first_index(entries, keyed::<V>(key)) {
        Some(i) => i,
        None => entries.len() as int,
    };
    assert(all[place] == (key, value));
    assert forall|x: (Seq<char>, V)| x.0 != key implies (#[trigger] all.contains(x) <==> entries.contains(x)) by {
        if entries.contains(x) {
            let k = choose|k: int| 0 <= k < entries.len() && entries[k] == x;
            assert(k != place);
            assert(all[k] == x);
        }
        if all.contains(x) {
            let k = choose|k: int| 0 <= k < all.len() && all[k] == x;
            assert(k != place);
            assert(entries[k] == x);
        }
    }
}

/// A subscription's state is the one that was told last; the states of others stay.
pub proof fn law_subscriptions_are_as_told_last(
    before: AviaryApp,
    after: AviaryApp,
    subscription_id: String,
    syncing: bool,
    error: Option<String>,
    last_success: Option<i128>,
)
    requires
        before.event_done(
            after,
            Evt::Calendar(CalendarEvt::IcalSyncState { subscription_id, syncing, error, last_success }),
        ),
    ensures
        after.calendar.ical_sync.deep_view().contains(
            (
                subscription_id@,
                crate::state::IcalSyncStatusView { syncing, error: error.deep_view(), last_success },
            ),
        ),
        forall|x: (Seq<char>, crate::state::IcalSyncStatusView)|
            x.0 != subscription_id@ ==> (#[trigger] after.calendar.ical_sync.deep_view().contains(x)
                <==> before.calendar.ical_sync.deep_view().contains(x)),
        after.effects.deep_view() != before.effects.deep_view() ==> !syncing && error is Some,
        !syncing && error is Some ==> after.effects.deep_view() == before.effects.deep_view().push(
            EffectView::CalendarScopeFailed { scope: "ical:"@ + subscription_id@ },
        ),
{
    lemma_entry_set(
        before.calendar.ical_sync.deep_view(),
        subscription_id@,
        crate::state::IcalSyncStatusView { syncing, error: error.deep_view(), last_success },
    );
    assert(before.effects.deep_view() + Seq::<EffectView>::empty() =~= before.effects.deep_view());
    assert(before.effects.deep_view() + seq![EffectView::CalendarScopeFailed { scope: "ical:"@ + subscription_id@ }]
        =~= before.effects.deep_view().push(EffectView::CalendarScopeFailed { scope: "ical:"@ + subscription_id@ }));
}

/// Events of an account are shown while the account is there and its calendar is not hidden;
/// those of a subscription always, and a feed that changed is loaded again while it is
/// subscribed to.
pub proof fn law_the_calendar_shows_what_is_not_hidden(
    before: AviaryApp,
    after: AviaryApp,
    account_id: AccountId,
    subscription_id: String,
    subscriptions: Vec<String>,
    from: i128,
    to: i128,
    events: Vec<CalendarEvent>,
)
    ensures
        before.event_done(after, Evt::CalendarEvents { account_id, from, to, events }) ==> {
            let shown = EffectView::ShowCalendarEvents { account_id: account_id.0@, from, to, events: events.deep_view() };
            if (exists|i: int| 0 <= i < before.accounts.deep_view().len() && (#[trigger] before.accounts.deep_view()[i]).id
                == account_id.0@) && !before.settings.global.calendar_hidden_account_ids.deep_view().contains(
                account_id.0@,
            ) {
                asked_once(before, after, shown)
            } else {
                after.effects.deep_view() == before.effects.deep_view()
            }
        },
        before.event_done(after, Evt::Calendar(CalendarEvt::IcalEvents { subscription_id, from, to, events }))
            ==> asked_once(
            before,
            after,
            EffectView::ShowFeedEvents { subscription_id: subscription_id@, from, to, events: events.deep_view() },
        ),
        before.event_done(after, Evt::Calendar(CalendarEvt::IcalFeedUpdated { subscription_id, subscriptions })) ==> if subscriptions.deep_view().contains(
            subscription_id@,
        ) {
            asked_once(before, after, EffectView::ReloadCalendar)
        } else {
            after.effects.deep_view() == before.effects.deep_view()
        },
{
    let accounts = before.accounts.deep_view();
    let p = account_named(account_id.0@);
    if accounts.any(p) {
        let i = choose|i: int| 0 <= i < accounts.len() && #[trigger] p(accounts[i]);
        assert(accounts[i].id == account_id.0@);
    }
    if exists|i: int| 0 <= i < accounts.len() && (#[trigger] accounts[i]).id == account_id.0@ {
        let i = choose|i: int| 0 <= i < accounts.len() && (#[trigger] accounts[i]).id == account_id.0@;
        assert(p(accounts[i]));
    }
    assert(before.has_account(account_id.0@) == accounts.any(p));
    lemma_asking(before.effects.deep_view());
}

/// What was fetched goes where it was asked for: attachments by message and id, texts that
/// were checked and images by editor. Nothing else changes.
pub proof fn law_answers_go_where_they_were_asked_for(
    before: AviaryApp,
    after: AviaryApp,
    account_id: AccountId,
    message_id: String,
    attachment_id: String,
    editor_id: String,
    cid: String,
    mime: String,
    block_id: u64,
    revision: u64,
    text: String,
    bytes: Vec<u8>,
    ready: bool,
)
    ensures
        before.event_done(
            after,
            Evt::Answer(AnswerEvt::AttachmentFetched { account_id, message_id, attachment_id, bytes }),
        ) ==> asked_once(
            before,
            after,
            EffectView::ShowAttachment {
                account_id: account_id.0@,
                message_id: message_id@,
                attachment_id: attachment_id@,
                bytes: bytes@,
            },
        ),
        before.event_done(
            after,
            Evt::Answer(AnswerEvt::AttachmentFetchError { account_id, message_id, attachment_id, error: text }),
        ) ==> asked_once(
            before,
            after,
            EffectView::AttachmentFailed {
                account_id: account_id.0@,
                message_id: message_id@,
                attachment_id: attachment_id@,
                error: text@,
            },
        ),
        before.event_done(
            after,
            Evt::Answer(AnswerEvt::LanguageToolChecked { editor_id, block_id, revision, checked: text }),
        ) ==> asked_once(
            before,
            after,
            EffectView::OfferProofreading { editor_id: editor_id@, block_id, revision, checked: text@ },
        ),
        before.event_done(
            after,
            Evt::Answer(AnswerEvt::LanguageToolCheckFailed { editor_id, block_id, revision }),
        ) ==> asked_once(
            before,
            after,
            EffectView::OfferProofreadingFailure { editor_id: editor_id@, block_id, revision },
        ),
        before.event_done(after, Evt::Answer(AnswerEvt::InlineImageFetched { editor_id, cid, bytes, mime }))
            ==> asked_once(
            before,
            after,
            EffectView::OfferInlineImage { editor_id: editor_id@, cid: cid@, bytes: bytes@, mime: mime@ },
        ),
        before.event_done(after, Evt::Answer(AnswerEvt::InlineImageFetchError { editor_id, cid })) ==> asked_once(
            before,
            after,
            EffectView::OfferInlineImageFailure { editor_id: editor_id@, cid: cid@ },
        ),
        before.event_done(after, Evt::Answer(AnswerEvt::LanguageToolStatus { ready })) ==> if ready {
            asked_once(before, after, EffectView::RetryProofreading)
        } else {
            after.effects.deep_view() == before.effects.deep_view()
        },
        before.event_done(after, Evt::Answer(AnswerEvt::Status)) ==> after.effects.deep_view()
            == before.effects.deep_view(),
{
    lemma_asking(before.effects.deep_view());
}

/// What is kept locally is as it was told; once it is cleared nothing is used, and the limit
/// stays.
pub proof fn law_the_local_copy_is_as_told(before: AviaryApp, after: AviaryApp, used_bytes: u64, limit_bytes: u64)
    ensures
        before.event_done(after, Evt::Other(OtherEvt::MailCacheStats { used_bytes, limit_bytes }))
            ==> after.cache.used_bytes == used_bytes && after.cache.limit_bytes == limit_bytes,
        before.event_done(after, Evt::Other(OtherEvt::MailCacheCleared)) ==> after.cache.used_bytes == 0
            && after.cache.limit_bytes == before.cache.limit_bytes,
        before.event_done(after, Evt::Other(OtherEvt::Authenticated)) ==> after.auth == AuthState::Authenticated,
{
}

/// An action that could not be finished is told with its name, stays until it is dismissed,
/// and offers to run what is left; what was done is reported. One that may have sent its mail
/// offers to go on only where steps are left.
pub proof fn law_unfinished_actions_offer_what_is_left(
    before: AviaryApp,
    after: AviaryApp,
    account_id: AccountId,
    remaining: QuickActionExecution,
    completed_steps: usize,
    error: String,
)
    ensures
        before.event_done(
            after,
            Evt::Quick(QuickEvt::QuickActionFailed { account_id, remaining, completed_steps, error }),
        ) ==> {
            let effects = after.effects.deep_view();
            &&& effects.len() == before.effects.deep_view().len() + 2
            &&& effects[effects.len() - 2] == (EffectView::FailQuickAction {
                execution_id: remaining.execution_id,
                completed_steps,
            })
            &&& effects.last() is Toast
            &&& effects.last()->Toast_notice.kind == ToastKind::Error
            &&& effects.last()->Toast_notice.stays
            &&& effects.last()->Toast_notice.offer == Offer::RetryRemaining
        },
        before.event_done(after, Evt::Quick(QuickEvt::QuickActionSendUncertain { account_id, remaining })) ==> {
            let effects = after.effects.deep_view();
            &&& effects.len() == before.effects.deep_view().len() + 1
            &&& effects.last() is Toast
            &&& effects.last()->Toast_notice.kind == ToastKind::Warning
            &&& effects.last()->Toast_notice.stays
            &&& (effects.last()->Toast_notice.offer == Offer::ContinueTriage <==> remaining.steps.len() > 0)
        },
{
    lemma_asking(before.effects.deep_view());
}

/// A request for earlier mail of a sender that failed is told. The first page can be asked
/// for again; of a further page what is there stays.
pub proof fn law_failed_requests_for_earlier_mail_leave_what_is_there(
    before: AviaryApp,
    after: AviaryApp,
    account_id: AccountId,
    email: String,
    is_load_more: bool,
    error: String,
)
    requires
        before.event_done(
            after,
            Evt::Contact(ContactEvt::SenderHistoryError { account_id, email, is_load_more, error }),
        ),
    ensures
        told_last(after, error@),
        match before.sender_history.deep_view() {
            SenderHistoryStateView::Loaded { email: current, messages, next, loading_more } => {
                after.sender_history.deep_view() == (SenderHistoryStateView::Loaded {
                    email: current,
                    messages,
                    next,
                    loading_more: loading_more && !(is_load_more && current == email@),
                })
            },
            SenderHistoryStateView::Loading { email: current } => {
                if !is_load_more && current == email@ {
                    after.sender_history.deep_view() is Idle
                } else {
                    after.sender_history.deep_view() == before.sender_history.deep_view()
                }
            },
            SenderHistoryStateView::Idle => after.sender_history.deep_view() is Idle,
        },
{
}

/// After a tag got another name, each message of its account that is listed has the new name
/// where it had the old or the new one, no longer the old one, and its other tags as before.
/// The message that is read agrees with that. Messages of other accounts stay as they are.
pub proof fn law_listed_messages_follow_a_renamed_tag(
    before: AviaryApp,
    after: AviaryApp,
    account_id: AccountId,
    id: String,
    new_id: Option<String>,
    old_tag: String,
    new_name: String,
    i: int,
)
    requires
        before.event_done(
            after,
            Evt::Tag(
                TagEvt::TagRenamed { account_id, id, new_id, old_message_tag: Some(old_tag), new_name },
            ),
        ),
        0 <= i < before.mailbox.messages.deep_view().len(),
    ensures
        after.mailbox.messages.deep_view().len() == before.mailbox.messages.deep_view().len(),
        ({
            let was = before.mailbox.messages.deep_view()[i];
            let now = after.mailbox.messages.deep_view()[i];
            &&& now == (MessageHeaderView { tags: now.tags, ..was })
            &&& was.account_id != account_id.0@ ==> now == was
            &&& was.account_id == account_id.0@ ==> renamed_once(was.tags, now.tags, old_tag@, new_name@)
        }),
        match (before.mailbox.viewer.selected.deep_view(), after.mailbox.viewer.selected.deep_view()) {
            (Some(was), Some(now)) => {
                &&& was.header.account_id != account_id.0@ ==> now == was
                &&& was.header.account_id == account_id.0@ ==> renamed_once(was.tags, now.tags, old_tag@, new_name@)
                    && renamed_once(was.header.tags, now.header.tags, old_tag@, new_name@)
            },
            (None, None) => true,
            _ => false,
        },
{
    law_renamed_tags_are_kept_once(before.mailbox.messages.deep_view()[i].tags, old_tag@, new_name@);
    if let Some(was) = before.mailbox.viewer.selected.deep_view() {
        law_renamed_tags_are_kept_once(was.tags, old_tag@, new_name@);
        law_renamed_tags_are_kept_once(was.header.tags, old_tag@, new_name@);
    }
}

/// Whether tags are those of before, but with one tag under another name.
pub open spec fn renamed_once(was: Seq<Seq<char>>, now: Seq<Seq<char>>, from: Seq<char>, to: Seq<char>) -> bool {
    &&& now.no_duplicates()
    &&& (now.contains(to) <==> was.contains(from) || was.contains(to))
    &&& from != to ==> !now.contains(from)
    &&& forall|tag: Seq<char>| tag != from && tag != to ==> (#[trigger] now.contains(tag) <==> was.contains(tag))
}

/// After an account signed out, the other accounts are there as before, and so are their
/// messages in the list.
pub proof fn law_other_accounts_stay(before: AviaryApp, after: AviaryApp, account_id: AccountId)
    requires
        before.event_done(after, Evt::Account(AccountEvt::LoggedOut { account_id })),
    ensures
        forall|x: AccountView| #[trigger]
            after.accounts.deep_view().contains(x) <==> before.accounts.deep_view().contains(x) && x.id != account_id.0@,
        forall|x: MessageHeaderView| #[trigger]
            after.mailbox.messages.deep_view().contains(x) <==> before.mailbox.messages.deep_view().contains(x)
                && x.account_id != account_id.0@,
        after.effects.deep_view().last() == EffectView::UpdateTrayUnread,
{
    lemma_kept(before.accounts.deep_view(), crate::sign_out::account_other(account_id.0@));
    lemma_kept(before.mailbox.messages.deep_view(), of_other_account(account_id.0@));
}

/// What a message weighs grows by the bytes of each image and of each attachment that was
/// fetched; one that was not weighs nothing.
pub proof fn law_messages_weigh_what_they_hold(message: MessageView, image: InlineImageView, attachment: AttachmentView)
    ensures
        weight(MessageView { inline_images: message.inline_images.push(image), ..message }) == weight(message)
            + image.bytes.len(),
        weight(MessageView { attachments: message.attachments.push(attachment), ..message }) == weight(message) + (
        match attachment.bytes {
            Some(bytes) => bytes.len() as int,
            None => 0,
        }),
        message.raw_body is Some ==> weight(message) == weight(MessageView { raw_body: None, ..message })
            + crate::memory::text_bytes(message.raw_body->0),
{
    assert(message.inline_images.push(image).drop_last() =~= message.inline_images);
    assert(message.attachments.push(attachment).drop_last() =~= message.attachments);
    assert(image_bytes(message.inline_images.push(image)) == image_bytes(message.inline_images) + image.bytes.len());
    assert(attachment_bytes(message.attachments.push(attachment)) >= attachment_bytes(message.attachments));
}

/// Tabs and older messages count where they hold a message, and weigh what it weighs.
pub proof fn law_tabs_count_where_they_hold_a_message(
    tabs: Seq<ViewerTabView>,
    tab: ViewerTabView,
    bodies: Seq<(Seq<char>, ThreadBodyStateView)>,
    body: (Seq<char>, ThreadBodyStateView),
)
    ensures
        message_tabs(tabs.push(tab)) == message_tabs(tabs) + (if tab is Message {
            1int
        } else {
            0int
        }),
        tab_bytes(tabs.push(tab)) == tab_bytes(tabs) + (match tab {
            ViewerTabView::Message { message } => weight(message),
            _ => 0,
        }),
        loaded_bodies(bodies.push(body)) == loaded_bodies(bodies) + (if body.1 is Loaded {
            1int
        } else {
            0int
        }),
        loaded_bytes(bodies.push(body)) == loaded_bytes(bodies) + (match body.1 {
            ThreadBodyStateView::Loaded { message } => weight(message),
            _ => 0,
        }),
{
    assert(tabs.push(tab).drop_last() =~= tabs);
    assert(bodies.push(body).drop_last() =~= bodies);
}

} // verus!
