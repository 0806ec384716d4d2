//! Requests from outside the window: notifications of the desktop, the notification area
//! and further starts of the program.
use crate::headers::HeaderChange;
use crate::mailbox_events::in_results;
use crate::model::{MessageRef, MessageRefView};
use crate::state::{
    AviaryApp, ComposeFields, Effect, EffectView, MailboxState, MainView, PendingState, SearchState,
};
use vstd::prelude::*;

verus! {

/// What a notification of the desktop asks for.
#[derive(Debug, Clone, Copy, PartialEq, Eq, Structural)]
pub enum NotificationActionKind {
    ShowInbox,
    Open,
    Reply,
    MarkRead,
    Archive,
}

/// What the notification area asks for.
#[derive(Debug, Clone, Copy, PartialEq, Eq, Structural)]
pub enum TrayAction {
    Show,
    Hide,
    Refresh,
    Quit,
}

/// What another start of the program asks for.
#[derive(Debug)]
pub enum ExternalRequest {
    Activate,
    Compose { fields: ComposeFields },
}

/// What is asked for by an action of the notification area.
pub open spec fn tray_asks(action: TrayAction) -> Seq<EffectView> {
    match action {
        TrayAction::Show => seq![EffectView::ActivateWindow],
        TrayAction::Hide => seq![EffectView::MinimizeWindow],
        TrayAction::Refresh => seq![EffectView::SendRefresh],
        TrayAction::Quit => seq![EffectView::CloseTray, EffectView::Quit],
    }
}

impl AviaryApp {
    /// What is asked for by a notification of the desktop.
    pub open spec fn notification_asks(kind: NotificationActionKind, message: Option<MessageRefView>) -> Seq<EffectView> {
        seq![EffectView::ActivateWindow] + match (kind, message) {
            (NotificationActionKind::ShowInbox, _) => seq![
                EffectView::EnterView { view: MainView::Mail },
                EffectView::SendRefresh,
            ],
            (NotificationActionKind::Open, Some(reference)) => seq![
                EffectView::EnterView { view: MainView::Mail },
                EffectView::OpenMessage { account_id: reference.account_id, id: reference.id },
            ],
            (NotificationActionKind::Reply, Some(reference)) => seq![
                EffectView::EnterView { view: MainView::Mail },
                EffectView::OpenMessage { account_id: reference.account_id, id: reference.id },
            ],
            (NotificationActionKind::MarkRead, Some(reference)) => seq![
                EffectView::MarkRead { account_id: reference.account_id, id: reference.id, read: true },
            ],
            (NotificationActionKind::Archive, Some(reference)) => seq![
                EffectView::Archive { account_id: reference.account_id, id: reference.id },
            ],
            (_, None) => Seq::empty(),
        }
    }

    /// What a notification of the desktop changes.
    pub open spec fn notification_done(self, after: AviaryApp, kind: NotificationActionKind, message: Option<MessageRef>) -> bool {
        match (kind, message) {
            (NotificationActionKind::ShowInbox, _) => after == (AviaryApp {
                view: MainView::Mail,
                effects: after.effects,
                ..self
            }),
            (NotificationActionKind::Open, Some(reference)) => {
                &&& after.pending.notification_open.deep_view() == Some(reference.deep_view())
                &&& after == (AviaryApp {
                    view: MainView::Mail,
                    pending: PendingState {
                        notification_open: after.pending.notification_open,
                        ..self.pending
                    },
                    effects: after.effects,
                    ..self
                })
            },
            (NotificationActionKind::Reply, Some(reference)) => {
                &&& after.pending.notification_open.deep_view() == Some(reference.deep_view())
                &&& after.pending.reply_id.deep_view() == Some(reference.id@)
                &&& after == (AviaryApp {
                    view: MainView::Mail,
                    pending: PendingState {
                        notification_open: after.pending.notification_open,
                        reply_id: after.pending.reply_id,
                        ..self.pending
                    },
                    effects: after.effects,
                    ..self
                })
            },
            (NotificationActionKind::MarkRead, Some(reference)) => {
                let read = (HeaderChange::Read { read: true }).of_message(reference.deep_view());
                &&& after.mailbox.messages.deep_view() == self.mailbox.messages.deep_view().map_values(read)
                &&& after.mailbox.search.results.deep_view() == in_results(
                    self.mailbox.search.results.deep_view(),
                    read,
                )
                &&& after == (AviaryApp {
                    mailbox: MailboxState {
                        messages: after.mailbox.messages,
                        search: SearchState { results: after.mailbox.search.results, ..self.mailbox.search },
                        ..self.mailbox
                    },
                    effects: after.effects,
                    ..self
                })
            },
            _ => after == (AviaryApp { effects: after.effects, ..self }),
        }
    }

    /// Goes to the mail view.
    fn enter_mail(&mut self)
        ensures
            final(self).asked(*old(self), seq![EffectView::EnterView { view: MainView::Mail }]),
            *final(self) == (AviaryApp { view: MainView::Mail, effects: final(self).effects, ..*old(self) }),
    {
        self.view = MainView::Mail;
        self.send(Effect::EnterView { view: MainView::Mail });
    }

    /// A notification of the desktop was clicked. The window comes to the front, whatever
    /// is asked for.
    pub fn handle_notification_action(&mut self, kind: NotificationActionKind, message: Option<MessageRef>)
        ensures
            final(self).asked(*old(self), Self::notification_asks(kind, message.deep_view())),
            old(self).notification_done(*final(self), kind, message),
    {
        let ghost start = self.effects.deep_view();
        let ghost wanted = Self::notification_asks(kind, message.deep_view());
        self.send(Effect::ActivateWindow);
        match kind {
            NotificationActionKind::ShowInbox => {
                self.enter_mail();
                self.send(Effect::SendRefresh);
            },
            NotificationActionKind::Open => {
                if let Some(reference) = message {
                    self.enter_mail();
                    self.pending.notification_open = Some(reference.clone());
                    self.send(Effect::OpenMessage { account_id: reference.account_id, id: reference.id });
                }
            },
            NotificationActionKind::Reply => {
                if let Some(reference) = message {
                    self.enter_mail();
                    self.pending.notification_open = Some(reference.clone());
                    self.pending.reply_id = Some(reference.id.clone());
                    self.send(Effect::OpenMessage { account_id: reference.account_id, id: reference.id });
                }
            },
            NotificationActionKind::MarkRead => {
                if let Some(reference) = message {
                    self.update_header_for(&reference, HeaderChange::Read { read: true });
                    self.send(
                        Effect::MarkRead { account_id: reference.account_id, id: reference.id, read: true },
                    );
                }
            },
            NotificationActionKind::Archive => {
                if let Some(reference) = message {
                    self.send(Effect::Archive { account_id: reference.account_id, id: reference.id });
                }
            },
        }
        assert(self.effects.deep_view() =~= start + wanted);
    }

    /// Another start of the program asked for something. The window comes to the front;
    /// what is to be written opens in a composer.
    pub fn handle_external_request(&mut self, request: ExternalRequest)
        ensures
            final(self).asked(
                *old(self),
                match request {
                    ExternalRequest::Activate => seq![EffectView::ActivateWindow],
                    ExternalRequest::Compose { fields } => seq![
                        EffectView::ActivateWindow,
                        EffectView::Compose { fields: fields.deep_view() },
                    ],
                },
            ),
            *final(self) == (AviaryApp { effects: final(self).effects, ..*old(self) }),
    {
        let ghost start = self.effects.deep_view();
        self.send(Effect::ActivateWindow);
        match request {
            ExternalRequest::Activate => {},
            ExternalRequest::Compose { fields } => {
                self.send(Effect::Compose { fields });
                assert(self.effects.deep_view() =~= start + seq![
                    EffectView::ActivateWindow,
                    EffectView::Compose { fields: fields.deep_view() },
                ]);
            },
        }
    }

    /// The notification area asked for something.
    pub fn handle_tray(&mut self, action: TrayAction)
        ensures
            final(self).asked(*old(self), tray_asks(action)),
            *final(self) == (AviaryApp { effects: final(self).effects, ..*old(self) }),
    {
        let ghost start = self.effects.deep_view();
        match action {
            TrayAction::Show => self.send(Effect::ActivateWindow),
            TrayAction::Hide => self.send(Effect::MinimizeWindow),
            TrayAction::Refresh => self.send(Effect::SendRefresh),
            TrayAction::Quit => {
                self.send(Effect::CloseTray);
                self.send(Effect::Quit);
            },
        }
        assert(self.effects.deep_view() =~= start + tray_asks(action));
    }
}

} // verus!
