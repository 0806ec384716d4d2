//! Events of calendars and of invitations.
use crate::app::{other_reference, told};
use crate::list_entries::holds_text;
use crate::lists::{first_index, position_where, retain_where, sort_stable, stable_sort, take_list};
use crate::model::{AccountId, MessageRef, MessageRefView};
use crate::reading::{entry_set, in_body, in_selected, in_tab, map_bodies, map_selected, map_tabs, set_entry};
use crate::state::{
    AviaryApp, CalendarEvent, CalendarEventView, CalendarState, Effect, EffectView, IcalSyncStatus, IcalSyncStatusView,
    InvitationResponse, MailboxState, Message, MessageView, NoticeText, NoticeTextView, PendingState, ToastKind,
    ViewerState,
};
use vstd::prelude::*;
use vstd::string::*;

verus! {

/// A message whose invitation was answered.
pub open spec fn with_response(reference: MessageRefView, response: InvitationResponse) -> spec_fn(MessageView) -> MessageView {
    |message: MessageView|
        if message.header.reference() == reference && message.invitation is Some {
            MessageView { invitation: Some(response), ..message }
        } else {
            message
        }
}

/// Whether a pair names another event.
pub open spec fn other_event_key(account_id: Seq<char>, id: Seq<char>) -> spec_fn((Seq<char>, Seq<char>)) -> bool {
    |key: (Seq<char>, Seq<char>)| key != (account_id, id)
}

/// Whether an event is the given one.
pub open spec fn is_event(account_id: Seq<char>, id: Seq<char>) -> spec_fn(CalendarEventView) -> bool {
    |event: CalendarEventView| event.account_id == account_id && event.id == id
}

/// Whether an event is another one.
pub open spec fn other_event(account_id: Seq<char>, id: Seq<char>) -> spec_fn(CalendarEventView) -> bool {
    |event: CalendarEventView| event.account_id != account_id || event.id != id
}

/// Order of events.
pub open spec fn earlier_first() -> spec_fn(CalendarEventView, CalendarEventView) -> bool {
    |a: CalendarEventView, b: CalendarEventView| a.start <= b.start
}

/// The events after one went back to where it was.
pub open spec fn moved_back(events: Seq<CalendarEventView>, account_id: Seq<char>, id: Seq<char>, start: i128, end: i128) -> Seq<
    CalendarEventView,
> {
    stable_sort(
        match first_index(events, is_event(account_id, id)) {
            Some(i) => events.update(i, CalendarEventView { start, end, ..events[i] }),
            None => events,
        },
        earlier_first(),
    )
}

/// Drops the pair of an event.
fn drop_event_key(keys: &mut Vec<(AccountId, String)>, account_id: &AccountId, id: &String)
    ensures
        final(keys).deep_view() == old(keys).deep_view().filter(other_event_key(account_id.0@, id@)),
{
    let taken = take_list(keys);
    *keys = retain_where(
        taken,
        |key: &(AccountId, String)| -> (keep: bool)
            ensures
                keep == other_event_key(account_id.0@, id@)(key.deep_view())
            { !(key.0 == *account_id && key.1 == *id) },
        Ghost(other_event_key(account_id.0@, id@)),
    );
}

impl AviaryApp {
    /// Whether the calendar of an account is shown.
    pub open spec fn calendar_visible(self, id: Seq<char>) -> bool {
        self.has_account(id) && !self.settings.global.calendar_hidden_account_ids.deep_view().contains(id)
    }

    /// Whether the calendar of an account is shown.
    pub fn calendar_account_visible(&self, account_id: &AccountId) -> (visible: bool)
        ensures
            visible == self.calendar_visible(account_id.0@),
    {
        self.account(account_id).is_some() && !holds_text(
            &self.settings.global.calendar_hidden_account_ids,
            &account_id.0,
        )
    }

    /// Forgets that the answer to an invitation is on its way.
    fn response_arrived(&mut self, reference: &MessageRef)
        ensures
            final(self).pending.invitation_responses.deep_view() == old(
                self,
            ).pending.invitation_responses.deep_view().filter(other_reference(reference.deep_view())),
            *final(self) == (AviaryApp {
                pending: PendingState {
                    invitation_responses: final(self).pending.invitation_responses,
                    ..old(self).pending
                },
                ..*old(self)
            }),
    {
        let taken = take_list(&mut self.pending.invitation_responses);
        self.pending.invitation_responses = retain_where(
            taken,
            |other: &MessageRef| -> (keep: bool)
                ensures
                    keep == (other.deep_view() != reference.deep_view())
                { *other != *reference },
            Ghost(other_reference(reference.deep_view())),
        );
    }

    /// Shows the answer to an invitation in the reading pane.
    fn show_response(viewer: &mut ViewerState, reference: &MessageRef, response: InvitationResponse)
        ensures
            ({
                let f = with_response(reference.deep_view(), response);
                &&& final(viewer).selected.deep_view() == in_selected(old(viewer).selected.deep_view(), f)
                &&& final(viewer).open_tabs.deep_view() == old(viewer).open_tabs.deep_view().map_values(in_tab(f))
                &&& final(viewer).thread_bodies.deep_view() == old(viewer).thread_bodies.deep_view().map_values(
                    in_body(f),
                )
                &&& *final(viewer) == (ViewerState {
                    selected: final(viewer).selected,
                    open_tabs: final(viewer).open_tabs,
                    thread_bodies: final(viewer).thread_bodies,
                    ..*old(viewer)
                })
            }),
    {
        let ghost f = with_response(reference.deep_view(), response);
        map_selected(
            &mut viewer.selected,
            |message: Message| -> (answered: Message)
                ensures
                    answered.deep_view() == with_response(reference.deep_view(), response)(message.deep_view())
                { answer(message, reference, response) },
            Ghost(f),
        );
        map_tabs(
            &mut viewer.open_tabs,
            |message: Message| -> (answered: Message)
                ensures
                    answered.deep_view() == with_response(reference.deep_view(), response)(message.deep_view())
                { answer(message, reference, response) },
            Ghost(f),
        );
        map_bodies(
            &mut viewer.thread_bodies,
            |message: Message| -> (answered: Message)
                ensures
                    answered.deep_view() == with_response(reference.deep_view(), response)(message.deep_view())
                { answer(message, reference, response) },
            Ghost(f),
        );
    }

    /// What `on_invitation_responded` does.
    pub open spec fn invitation_responded_handled(self, after: AviaryApp, account_id: AccountId, message_id: String, response: InvitationResponse) -> bool {
        let reference = MessageRefView { account_id: account_id.0@, id: message_id@ };
        let f = with_response(reference, response);
        &&& after.pending.invitation_responses.deep_view() == self.pending.invitation_responses.deep_view().filter(other_reference(reference))
        &&& after.mailbox.viewer.selected.deep_view() == in_selected(
            self.mailbox.viewer.selected.deep_view(),
            f,
        )
        &&& after.mailbox.viewer.open_tabs.deep_view() == self.mailbox.viewer.open_tabs.deep_view().map_values(in_tab(f))
        &&& after.mailbox.viewer.thread_bodies.deep_view() == self.mailbox.viewer.thread_bodies.deep_view().map_values(in_body(f))
        &&& after.asked(
            self,
            seq![EffectView::ReloadCalendar, told(ToastKind::Success, "invitation-response-saved"@)],
        )
        &&& after == (AviaryApp {
            pending: PendingState {
                invitation_responses: after.pending.invitation_responses,
                ..self.pending
            },
            mailbox: MailboxState {
                viewer: ViewerState {
                    selected: after.mailbox.viewer.selected,
                    open_tabs: after.mailbox.viewer.open_tabs,
                    thread_bodies: after.mailbox.viewer.thread_bodies,
                    ..self.mailbox.viewer
                },
                ..self.mailbox
            },
            effects: after.effects,
            ..self
        })
    }

    /// The answer to an invitation was saved: it shows wherever the message is open.
    pub fn on_invitation_responded(&mut self, account_id: AccountId, message_id: String, response: InvitationResponse)
        ensures
            old(self).invitation_responded_handled(*final(self), account_id, message_id, response),
    {
        let ghost start = self.effects.deep_view();
        let reference = MessageRef { account_id, id: message_id };
        self.response_arrived(&reference);
        Self::show_response(&mut self.mailbox.viewer, &reference, response);
        self.send(Effect::ReloadCalendar);
        self.tell(ToastKind::Success, "invitation-response-saved");
        assert(self.effects.deep_view() =~= start + seq![
            EffectView::ReloadCalendar,
            told(ToastKind::Success, "invitation-response-saved"@),
        ]);
    }

    /// What `on_invitation_response_error` does.
    pub open spec fn invitation_response_error_handled(self, after: AviaryApp, account_id: AccountId, message_id: String, error: String) -> bool {
        &&& after.pending.invitation_responses.deep_view() == self.pending.invitation_responses.deep_view().filter(
            other_reference(MessageRefView { account_id: account_id.0@, id: message_id@ }),
        )
        &&& after.asked(
            self,
            seq![crate::app::passing(ToastKind::Error, NoticeTextView::Plain { text: error@ })],
        )
        &&& after == (AviaryApp {
            pending: PendingState {
                invitation_responses: after.pending.invitation_responses,
                ..self.pending
            },
            effects: after.effects,
            ..self
        })
    }

    /// The answer to an invitation could not be saved.
    pub fn on_invitation_response_error(&mut self, account_id: AccountId, message_id: String, error: String)
        ensures
            old(self).invitation_response_error_handled(*final(self), account_id, message_id, error),
    {
        self.response_arrived(&MessageRef { account_id, id: message_id });
        self.toast(ToastKind::Error, NoticeText::Plain { text: error });
    }

    /// What `on_calendar_events` does.
    pub open spec fn calendar_events_handled(
        self,
        after: AviaryApp,
        account_id: AccountId,
        from: i128,
        to: i128,
        events: Vec<CalendarEvent>,
    ) -> bool {
        &&& after.asked(
            self,
            if self.calendar_visible(account_id.0@) {
                seq![
                    EffectView::ShowCalendarEvents { account_id: account_id.0@, from, to, events: events.deep_view() },
                ]
            } else {
                Seq::empty()
            },
        )
        &&& after == (AviaryApp { effects: after.effects, ..self })
    }

    /// The events of a stretch of a calendar came: they are shown, unless the calendar is
    /// hidden.
    pub fn on_calendar_events(&mut self, account_id: AccountId, from: i128, to: i128, events: Vec<CalendarEvent>)
        ensures
            old(self).calendar_events_handled(*final(self), account_id, from, to, events),
    {
        let ghost start = self.effects.deep_view();
        if self.calendar_account_visible(&account_id) {
            self.send(Effect::ShowCalendarEvents { account_id, from, to, events });
        }
        assert(self.effects.deep_view() =~= start + (if old(self).calendar_visible(account_id.0@) {
            seq![EffectView::ShowCalendarEvents { account_id: account_id.0@, from, to, events: events.deep_view() }]
        } else {
            Seq::empty()
        }));
    }

    /// What `on_calendar_load_failed` does.
    pub open spec fn calendar_load_failed_handled(self, after: AviaryApp, account_id: AccountId, from: i128, to: i128, error: String) -> bool {
        &&& after.asked(
            self,
            seq![
                EffectView::CalendarWindowFailed { scope: account_id.0@, from, to },
                EffectView::NotifyError { error: error@ },
            ],
        )
        &&& after == (AviaryApp { effects: after.effects, ..self })
    }

    /// A stretch of a calendar could not be loaded: it is missing again.
    pub fn on_calendar_load_failed(&mut self, account_id: AccountId, from: i128, to: i128, error: String)
        ensures
            old(self).calendar_load_failed_handled(*final(self), account_id, from, to, error),
    {
        let ghost start = self.effects.deep_view();
        self.send(Effect::CalendarWindowFailed { scope: account_id.0, from, to });
        self.send(Effect::NotifyError { error });
        assert(self.effects.deep_view() =~= start + seq![
            EffectView::CalendarWindowFailed { scope: account_id.0@, from, to },
            EffectView::NotifyError { error: error@ },
        ]);
    }

    /// What `on_calendar_event_saved` does.
    pub open spec fn calendar_event_saved_handled(self, after: AviaryApp, request_id: u64, updated: bool) -> bool {
        &&& after.asked(
            self,
            seq![
                EffectView::CloseEventCompose { request_id },
                EffectView::ReloadCalendar,
                told(
                    ToastKind::Success,
                    if updated {
                        "toast-event-updated"@
                    } else {
                        "toast-event-created"@
                    },
                ),
            ],
        )
        &&& after == (AviaryApp { effects: after.effects, ..self })
    }

    /// An event was created or changed.
    pub fn on_calendar_event_saved(&mut self, request_id: u64, updated: bool)
        ensures
            old(self).calendar_event_saved_handled(*final(self), request_id, updated),
    {
        let ghost start = self.effects.deep_view();
        self.send(Effect::CloseEventCompose { request_id });
        self.send(Effect::ReloadCalendar);
        let key = if updated {
            "toast-event-updated"
        } else {
            "toast-event-created"
        };
        self.tell(ToastKind::Success, key);
        assert(self.effects.deep_view() =~= start + seq![
            EffectView::CloseEventCompose { request_id },
            EffectView::ReloadCalendar,
            told(ToastKind::Success, key@),
        ]);
    }

    /// What `on_calendar_event_save_error` does.
    pub open spec fn calendar_event_save_error_handled(self, after: AviaryApp, request_id: u64, error: String) -> bool {
        &&& after.asked(
            self,
            seq![
                EffectView::EventComposeError { request_id, error: error@ },
                EffectView::NotifyError { error: error@ },
            ],
        )
        &&& after == (AviaryApp { effects: after.effects, ..self })
    }

    /// An event could not be created or changed.
    pub fn on_calendar_event_save_error(&mut self, request_id: u64, error: String)
        ensures
            old(self).calendar_event_save_error_handled(*final(self), request_id, error),
    {
        let ghost start = self.effects.deep_view();
        self.send(Effect::EventComposeError { request_id, error: error.clone() });
        self.send(Effect::NotifyError { error });
        assert(self.effects.deep_view() =~= start + seq![
            EffectView::EventComposeError { request_id, error: error@ },
            EffectView::NotifyError { error: error@ },
        ]);
    }

    /// What `on_calendar_event_deleted` does.
    pub open spec fn calendar_event_deleted_handled(self, after: AviaryApp, account_id: AccountId, event_id: String) -> bool {
        &&& after.calendar.deleting.deep_view() == self.calendar.deleting.deep_view().filter(
            other_event_key(account_id.0@, event_id@),
        )
        &&& after.calendar.events.deep_view() == self.calendar.events.deep_view().filter(
            other_event(account_id.0@, event_id@),
        )
        &&& after.asked(
            self,
            seq![EffectView::ReloadCalendar, told(ToastKind::Success, "toast-event-deleted"@)],
        )
        &&& after == (AviaryApp {
            calendar: CalendarState {
                deleting: after.calendar.deleting,
                events: after.calendar.events,
                selected: if self.calendar.selected.deep_view() == Some(event_id@) {
                    None
                } else {
                    self.calendar.selected
                },
                ..self.calendar
            },
            effects: after.effects,
            ..self
        })
    }

    /// An event was deleted.
    pub fn on_calendar_event_deleted(&mut self, account_id: AccountId, event_id: String)
        ensures
            old(self).calendar_event_deleted_handled(*final(self), account_id, event_id),
    {
        let ghost start = self.effects.deep_view();
        drop_event_key(&mut self.calendar.deleting, &account_id, &event_id);
        let taken = take_list(&mut self.calendar.events);
        self.calendar.events = retain_where(
            taken,
            |event: &CalendarEvent| -> (keep: bool)
                ensures
                    keep == other_event(account_id.0@, event_id@)(event.deep_view())
                { event.account_id != account_id || event.id != event_id },
            Ghost(other_event(account_id.0@, event_id@)),
        );
        if crate::app::is_text(&self.calendar.selected, &event_id) {
            self.calendar.selected = None;
        }
        self.send(Effect::ReloadCalendar);
        self.tell(ToastKind::Success, "toast-event-deleted");
        assert(self.effects.deep_view() =~= start + seq![
            EffectView::ReloadCalendar,
            told(ToastKind::Success, "toast-event-deleted"@),
        ]);
    }

    /// What `on_calendar_event_delete_error` does.
    pub open spec fn calendar_event_delete_error_handled(self, after: AviaryApp, account_id: AccountId, event_id: String, error: String) -> bool {
        &&& after.calendar.deleting.deep_view() == self.calendar.deleting.deep_view().filter(
            other_event_key(account_id.0@, event_id@),
        )
        &&& after.asked(self, seq![EffectView::NotifyError { error: error@ }])
        &&& after == (AviaryApp {
            calendar: CalendarState { deleting: after.calendar.deleting, ..self.calendar },
            effects: after.effects,
            ..self
        })
    }

    /// An event could not be deleted.
    pub fn on_calendar_event_delete_error(&mut self, account_id: AccountId, event_id: String, error: String)
        ensures
            old(self).calendar_event_delete_error_handled(*final(self), account_id, event_id, error),
    {
        drop_event_key(&mut self.calendar.deleting, &account_id, &event_id);
        self.send(Effect::NotifyError { error });
    }

    /// What `on_calendar_event_moved` does.
    pub open spec fn calendar_event_moved_handled(self, after: AviaryApp, account_id: AccountId, event_id: String) -> bool {
        &&& after.calendar.moving.deep_view() == self.calendar.moving.deep_view().filter(
            other_event_key(account_id.0@, event_id@),
        )
        &&& after.asked(
            self,
            seq![EffectView::ReloadCalendar, told(ToastKind::Success, "toast-event-moved"@)],
        )
        &&& after == (AviaryApp {
            calendar: CalendarState { moving: after.calendar.moving, ..self.calendar },
            effects: after.effects,
            ..self
        })
    }

    /// An event was moved.
    pub fn on_calendar_event_moved(&mut self, account_id: AccountId, event_id: String)
        ensures
            old(self).calendar_event_moved_handled(*final(self), account_id, event_id),
    {
        let ghost start = self.effects.deep_view();
        drop_event_key(&mut self.calendar.moving, &account_id, &event_id);
        self.send(Effect::ReloadCalendar);
        self.tell(ToastKind::Success, "toast-event-moved");
        assert(self.effects.deep_view() =~= start + seq![
            EffectView::ReloadCalendar,
            told(ToastKind::Success, "toast-event-moved"@),
        ]);
    }

    /// What `on_calendar_event_move_error` does.
    pub open spec fn calendar_event_move_error_handled(self, after: AviaryApp, account_id: AccountId, event_id: String, previous_start: i128, previous_end: i128, error: String) -> bool {
        &&& after.calendar.moving.deep_view() == self.calendar.moving.deep_view().filter(
            other_event_key(account_id.0@, event_id@),
        )
        &&& after.calendar.events.deep_view() == moved_back(
            self.calendar.events.deep_view(),
            account_id.0@,
            event_id@,
            previous_start,
            previous_end,
        )
        &&& after.asked(
            self,
            seq![EffectView::InvalidateEventLayouts, EffectView::NotifyError { error: error@ }],
        )
        &&& after == (AviaryApp {
            calendar: CalendarState {
                moving: after.calendar.moving,
                events: after.calendar.events,
                ..self.calendar
            },
            effects: after.effects,
            ..self
        })
    }

    /// An event could not be moved: it goes back to where it was.
    pub fn on_calendar_event_move_error(
        &mut self,
        account_id: AccountId,
        event_id: String,
        previous_start: i128,
        previous_end: i128,
        error: String,
    )
        ensures
            old(self).calendar_event_move_error_handled(*final(self), account_id, event_id, previous_start, previous_end, error),
    {
        let ghost start = self.effects.deep_view();
        drop_event_key(&mut self.calendar.moving, &account_id, &event_id);
        let ghost before = self.calendar.events.deep_view();
        let found = position_where(
            &self.calendar.events,
            |event: &CalendarEvent| -> (same: bool)
                ensures
                    same == is_event(account_id.0@, event_id@)(event.deep_view())
                { event.account_id == account_id && event.id == event_id },
            Ghost(is_event(account_id.0@, event_id@)),
        );
        if let Some(i) = found {
            assert(before[i as int] == self.calendar.events[i as int].deep_view());
            let mut event = self.calendar.events[i].clone();
            event.start = previous_start;
            event.end = previous_end;
            let ghost shown = event.deep_view();
            self.calendar.events.set(i, event);
            assert(self.calendar.events.deep_view() =~= before.update(i as int, shown));
        }
        let taken = take_list(&mut self.calendar.events);
        self.calendar.events = sort_stable(
            taken,
            |a: &CalendarEvent, b: &CalendarEvent| -> (le: bool)
                ensures
                    le == earlier_first()(a.deep_view(), b.deep_view())
                { a.start <= b.start },
            Ghost(earlier_first()),
        );
        self.send(Effect::InvalidateEventLayouts);
        self.send(Effect::NotifyError { error });
        assert(self.effects.deep_view() =~= start + seq![
            EffectView::InvalidateEventLayouts,
            EffectView::NotifyError { error: error@ },
        ]);
    }

    /// What `on_ical_events` does.
    pub open spec fn ical_events_handled(
        self,
        after: AviaryApp,
        subscription_id: String,
        from: i128,
        to: i128,
        events: Vec<CalendarEvent>,
    ) -> bool {
        &&& after.asked(
            self,
            seq![
                EffectView::ShowFeedEvents {
                    subscription_id: subscription_id@,
                    from,
                    to,
                    events: events.deep_view(),
                },
            ],
        )
        &&& after == (AviaryApp { effects: after.effects, ..self })
    }

    /// The events of a stretch of a subscribed calendar came: they are shown.
    pub fn on_ical_events(&mut self, subscription_id: String, from: i128, to: i128, events: Vec<CalendarEvent>)
        ensures
            old(self).ical_events_handled(*final(self), subscription_id, from, to, events),
    {
        self.send(Effect::ShowFeedEvents { subscription_id, from, to, events });
    }

    /// What `on_ical_sync_state` does.
    pub open spec fn ical_sync_state_handled(self, after: AviaryApp, subscription_id: String, syncing: bool, error: Option<String>, last_success: Option<i128>) -> bool {
        &&& after.calendar.ical_sync.deep_view() == entry_set(
            self.calendar.ical_sync.deep_view(),
            subscription_id@,
            IcalSyncStatusView { syncing, error: error.deep_view(), last_success },
        )
        &&& after.asked(
            self,
            if !syncing && error is Some {
                seq![EffectView::CalendarScopeFailed { scope: "ical:"@ + subscription_id@ }]
            } else {
                Seq::empty()
            },
        )
        &&& after == (AviaryApp {
            calendar: CalendarState { ical_sync: after.calendar.ical_sync, ..self.calendar },
            effects: after.effects,
            ..self
        })
    }

    /// The synchronisation of a subscribed calendar went on. When it failed, what was
    /// loaded of the calendar is missing again.
    pub fn on_ical_sync_state(&mut self, subscription_id: String, syncing: bool, error: Option<String>, last_success: Option<i128>)
        ensures
            old(self).ical_sync_state_handled(*final(self), subscription_id, syncing, error, last_success),
    {
        assert(self.effects.deep_view() =~= old(self).effects.deep_view() + Seq::<EffectView>::empty());
        if !syncing && error.is_some() {
            let scope = "ical:".to_owned().concat(subscription_id.as_str());
            self.send(Effect::CalendarScopeFailed { scope });
        }
        set_entry(
            &mut self.calendar.ical_sync,
            subscription_id,
            IcalSyncStatus { syncing, error, last_success },
        );
    }

    /// What `on_ical_feed_updated` does.
    pub open spec fn ical_feed_updated_handled(self, after: AviaryApp, subscription_id: &String, subscriptions: &Vec<String>) -> bool {
        &&& after.asked(
            self,
            if subscriptions.deep_view().contains(subscription_id@) {
                seq![EffectView::ReloadCalendar]
            } else {
                Seq::empty()
            },
        )
        &&& after == (AviaryApp { effects: after.effects, ..self })
    }

    /// A subscribed calendar changed: the calendar is loaded again, if it is still one of
    /// those in `subscriptions`.
    pub fn on_ical_feed_updated(&mut self, subscription_id: &String, subscriptions: &Vec<String>)
        ensures
            old(self).ical_feed_updated_handled(*final(self), subscription_id, subscriptions),
    {
        assert(self.effects.deep_view() =~= old(self).effects.deep_view() + Seq::<EffectView>::empty());
        if holds_text(subscriptions, subscription_id) {
            self.send(Effect::ReloadCalendar);
        }
    }
}

/// A message whose invitation was answered.
fn answer(message: Message, reference: &MessageRef, response: InvitationResponse) -> (answered: Message)
    ensures
        answered.deep_view() == with_response(reference.deep_view(), response)(message.deep_view()),
{
    let mut message = message;
    if message.header.account_id == reference.account_id && message.header.id == reference.id
        && message.invitation.is_some() {
        message.invitation = Some(response);
    }
    message
}

} // verus!
