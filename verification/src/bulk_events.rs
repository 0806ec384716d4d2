//! Answers to changes of messages, one by one or in batches.
use crate::app::{is_text, told};
use crate::headers::other_message_id;
use crate::mailbox_events::results_without;
use crate::model::{AccountId, MessageHeader, MessageRef, MessageRefView};
use crate::state::{
    AviaryApp, Effect, EffectView, MailboxState, MutationKind, Notice, NoticeText, NoticeTextView, NoticeView, Offer,
    SearchState, ToastKind, Topic, TopicView, Shortened, ShortenedView,
};
use vstd::prelude::*;

verus! {

/// How a batch ended.
#[derive(Debug)]
pub struct BulkCompletion {
    pub succeeded: usize,
    pub failed: usize,
    pub total: usize,
    /// What to tell when all went through; empty for a batch that the user did not ask for.
    pub message: String,
    pub first_error: Option<String>,
    pub notification_key: Option<u64>,
}

/// What an answer means for the batch that its message belongs to.
#[derive(Debug)]
pub enum BulkReply {
    /// The message belongs to no batch.
    Single,
    /// Further answers of the batch are to come.
    Pending,
    /// It was the last answer of the batch.
    Completed { completion: BulkCompletion },
}

impl BulkReply {
    /// Whether the message belongs to a batch.
    pub fn is_bulk(&self) -> (yes: bool)
        ensures
            yes == !(self is Single),
    {
        match self {
            BulkReply::Single => false,
            _ => true,
        }
    }
}

/// A notification about one message.
pub open spec fn mutation_told(kind: ToastKind, text: NoticeTextView, change: MutationKind, reference: MessageRefView) -> EffectView {
    EffectView::Toast {
        notice: NoticeView {
            kind,
            text,
            detail: None,
            stays: false,
            topic: TopicView::Mutation { kind: change, reference },
            offer: Offer::Nothing,
        },
    }
}

/// The words of the provider, if it gave any, to be shown in short.
pub open spec fn given_error(error: Option<Seq<char>>) -> Option<ShortenedView> {
    match error {
        Some(text) => if text.len() == 0 {
            None
        } else {
            Some(ShortenedView { whole: text })
        },
        None => None,
    }
}

impl BulkCompletion {
    /// The notification that a batch is entitled to: all through, none through, or some.
    /// A batch that the user did not ask for tells nothing when it works.
    pub open spec fn notices(self) -> Seq<EffectView> {
        if self.failed == 0 {
            if self.message@.len() == 0 {
                Seq::empty()
            } else {
                seq![
                    EffectView::Toast {
                        notice: NoticeView {
                            kind: ToastKind::Success,
                            text: NoticeTextView::Plain { text: self.message@ },
                            detail: None,
                            stays: false,
                            topic: TopicView::Batch { key: self.notification_key },
                            offer: Offer::Nothing,
                        },
                    },
                ]
            }
        } else {
            seq![
                EffectView::Toast {
                    notice: NoticeView {
                        kind: if self.succeeded == 0 {
                            ToastKind::Error
                        } else {
                            ToastKind::Warning
                        },
                        text: NoticeTextView::Counted {
                            key: if self.succeeded == 0 {
                                "bulk-all-failed"@
                            } else {
                                "bulk-partially-failed"@
                            },
                            succeeded: self.succeeded,
                            total: self.total,
                            failed: self.failed,
                        },
                        detail: given_error(self.first_error.deep_view()),
                        stays: true,
                        topic: TopicView::Batch { key: self.notification_key },
                        offer: Offer::Nothing,
                    },
                },
            ]
        }
    }
}

/// The notifications that an answer leads to.
pub open spec fn reply_notices(reply: BulkReply) -> Seq<EffectView> {
    match reply {
        BulkReply::Completed { completion } => completion.notices(),
        _ => Seq::empty(),
    }
}

impl AviaryApp {
    /// Shows a notification about one message.
    fn tell_mutation(&mut self, kind: ToastKind, key: &'static str, change: MutationKind, reference: MessageRef)
        ensures
            final(self).asked(
                *old(self),
                seq![mutation_told(kind, NoticeTextView::Key { key: key@ }, change, reference.deep_view())],
            ),
            *final(self) == (AviaryApp { effects: final(self).effects, ..*old(self) }),
    {
        self.send(
            Effect::Toast {
                notice: Notice {
                    kind,
                    text: NoticeText::Key { key },
                    detail: None,
                    stays: false,
                    topic: Topic::Mutation { kind: change, reference },
                    offer: Offer::Nothing,
                },
            },
        );
    }

    /// Tells how a batch ended.
    pub fn report_completion(&mut self, completion: BulkCompletion)
        ensures
            final(self).asked(*old(self), completion.notices()),
            *final(self) == (AviaryApp { effects: final(self).effects, ..*old(self) }),
    {
        assert(self.effects.deep_view() =~= old(self).effects.deep_view() + Seq::<EffectView>::empty());
        let topic = Topic::Batch { key: completion.notification_key };
        if completion.failed == 0 {
            if completion.message.as_str().is_empty() {
                return;
            }
            self.send(
                Effect::Toast {
                    notice: Notice {
                        kind: ToastKind::Success,
                        text: NoticeText::Plain { text: completion.message },
                        detail: None,
                        stays: false,
                        topic,
                        offer: Offer::Nothing,
                    },
                },
            );
            return;
        }
        let detail: Option<Shortened> = match completion.first_error {
            Some(error) => if error.as_str().is_empty() {
                None
            } else {
                Some(Shortened { whole: error })
            },
            None => None,
        };
        let none_through = completion.succeeded == 0;
        self.send(
            Effect::Toast {
                notice: Notice {
                    kind: if none_through {
                        ToastKind::Error
                    } else {
                        ToastKind::Warning
                    },
                    text: NoticeText::Counted {
                        key: if none_through {
                            "bulk-all-failed"
                        } else {
                            "bulk-partially-failed"
                        },
                        succeeded: completion.succeeded,
                        total: completion.total,
                        failed: completion.failed,
                    },
                    detail,
                    stays: true,
                    topic,
                    offer: Offer::Nothing,
                },
            },
        );
    }

    /// Tells how a batch ended, if an answer was its last.
    pub fn report_bulk_completion(&mut self, reply: BulkReply)
        ensures
            final(self).asked(*old(self), reply_notices(reply)),
            *final(self) == (AviaryApp { effects: final(self).effects, ..*old(self) }),
    {
        assert(self.effects.deep_view() =~= old(self).effects.deep_view() + Seq::<EffectView>::empty());
        match reply {
            BulkReply::Completed { completion } => self.report_completion(completion),
            _ => {},
        }
    }

    /// What `on_mutation_deferred` does.
    pub open spec fn mutation_deferred_handled(self, after: AviaryApp, account_id: AccountId, message_id: String, kind: MutationKind, first: bool, bulk: bool) -> bool {
        &&& after.asked(
            self,
            if first {
                seq![
                    mutation_told(
                        ToastKind::Warning,
                        NoticeTextView::Key {
                            key: if bulk {
                                "bulk-deferred"@
                            } else {
                                "operation-deferred"@
                            },
                        },
                        kind,
                        MessageRefView { account_id: account_id.0@, id: message_id@ },
                    ),
                ]
            } else {
                Seq::empty()
            },
        )
        &&& after == (AviaryApp { effects: after.effects, ..self })
    }

    /// A provider could not be reached, and a change stays in the outbox. Of a batch only
    /// the first such answer is told.
    pub fn on_mutation_deferred(
        &mut self,
        account_id: AccountId,
        message_id: String,
        kind: MutationKind,
        first: bool,
        bulk: bool,
    )
        ensures
            old(self).mutation_deferred_handled(*final(self), account_id, message_id, kind, first, bulk),
    {
        assert(self.effects.deep_view() =~= old(self).effects.deep_view() + Seq::<EffectView>::empty());
        if !first {
            return;
        }
        let reference = MessageRef { account_id, id: message_id };
        if bulk {
            self.tell_mutation(ToastKind::Warning, "bulk-deferred", kind, reference);
        } else {
            self.tell_mutation(ToastKind::Warning, "operation-deferred", kind, reference);
        }
    }

    /// What `on_mutation_succeeded` does.
    pub open spec fn mutation_succeeded_handled(self, after: AviaryApp, reply: BulkReply) -> bool {
        &&& after.asked(self, reply_notices(reply))
        &&& after == (AviaryApp { effects: after.effects, ..self })
    }

    /// A change went through. Nothing on screen changes: it was shown when it was asked
    /// for. Tells whether the view is to be drawn again.
    pub fn on_mutation_succeeded(&mut self, reply: BulkReply) -> (redraw: bool)
        ensures
            !redraw,
            old(self).mutation_succeeded_handled(*final(self), reply),
    {
        self.report_bulk_completion(reply);
        false
    }

    /// What is asked for when a change failed.
    pub open spec fn failure_asks(reference: MessageRefView, kind: MutationKind, error: Seq<char>, reply: BulkReply) -> Seq<
        EffectView,
    > {
        match reply {
            BulkReply::Single => seq![
                EffectView::MessageMutationError {
                    text: NoticeTextView::Failed { key: "operation-failed"@, error },
                    kind,
                    reference,
                },
                EffectView::SendRefresh,
            ],
            BulkReply::Pending => Seq::empty(),
            BulkReply::Completed { completion } => completion.notices() + seq![
                EffectView::SendRefresh,
                EffectView::LoadFolders { account_id: reference.account_id },
            ],
        }
    }

    /// Asks for what a failed change needs.
    fn ask_after_failure(&mut self, reference: MessageRef, kind: MutationKind, error: String, reply: BulkReply)
        ensures
            final(self).asked(*old(self), Self::failure_asks(reference.deep_view(), kind, error@, reply)),
            *final(self) == (AviaryApp { effects: final(self).effects, ..*old(self) }),
    {
        let ghost start = self.effects.deep_view();
        let ghost shown = reference.deep_view();
        match reply {
            BulkReply::Single => {
                self.send(
                    Effect::MessageMutationError {
                        text: NoticeText::Failed { key: "operation-failed", error },
                        kind,
                        reference,
                    },
                );
                self.send(Effect::SendRefresh);
                assert(self.effects.deep_view() =~= start + Self::failure_asks(shown, kind, error@, reply));
            },
            BulkReply::Pending => {
                assert(self.effects.deep_view() =~= start + Seq::<EffectView>::empty());
            },
            BulkReply::Completed { completion } => {
                self.report_completion(completion);
                self.send(Effect::SendRefresh);
                self.send(Effect::LoadFolders { account_id: reference.account_id });
                assert(self.effects.deep_view() =~= start + Self::failure_asks(shown, kind, error@, reply));
            },
        }
    }

    /// The state once a refused change was taken back.
    pub open spec fn rolled_back(self, account_id: Seq<char>, header: Option<MessageHeader>, after: AviaryApp) -> bool {
        match header {
            Some(header) if self.relevant(account_id) => self.header_restored(account_id, header.deep_view(), after),
            _ => after == (AviaryApp { effects: after.effects, ..self }),
        }
    }

    /// What taking a refused change back asks for.
    pub open spec fn rollback_asks(self, account_id: Seq<char>, header: Option<MessageHeader>) -> Seq<EffectView> {
        if header is Some && self.relevant(account_id) {
            seq![EffectView::UpdateTrayUnread]
        } else {
            Seq::empty()
        }
    }

    /// What `on_mutation_failed` does.
    pub open spec fn mutation_failed_handled(self, after: AviaryApp, account_id: AccountId, message_id: String, kind: MutationKind, header: Option<MessageHeader>, error: String, reply: BulkReply) -> bool {
        &&& self.rolled_back(account_id.0@, header, after)
        &&& after.asked(
            self,
            self.rollback_asks(account_id.0@, header) + Self::failure_asks(
                MessageRefView { account_id: account_id.0@, id: message_id@ },
                kind,
                error@,
                reply,
            ),
        )
    }

    /// A change failed for good: the header that the provider confirmed last comes back,
    /// and the failure is told, for a batch once it ended.
    pub fn on_mutation_failed(
        &mut self,
        account_id: AccountId,
        message_id: String,
        kind: MutationKind,
        header: Option<MessageHeader>,
        error: String,
        reply: BulkReply,
    )
        ensures
            old(self).mutation_failed_handled(*final(self), account_id, message_id, kind, header, error, reply),
    {
        let ghost start = *self;
        let reference = MessageRef { account_id: account_id.clone(), id: message_id };
        assert(self.effects.deep_view() =~= start.effects.deep_view() + Seq::<EffectView>::empty());
        if let Some(header) = header {
            self.restore_confirmed_header(account_id, header);
        }
        let ghost middle = *self;
        assert(middle.asked(start, start.rollback_asks(account_id.0@, header)));
        self.ask_after_failure(reference, kind, error, reply);
        proof {
            AviaryApp::lemma_asked(
                start,
                middle,
                *self,
                start.rollback_asks(account_id.0@, header),
                Self::failure_asks(
                    MessageRefView { account_id: account_id.0@, id: message_id@ },
                    kind,
                    error@,
                    reply,
                ),
            );
        }
    }

    /// What `on_outbox_queued` does.
    pub open spec fn outbox_queued_handled(self, after: AviaryApp, compose_id: u64) -> bool {
        &&& after.asked(
            self,
            seq![EffectView::ComposeQueued { compose_id }, told(ToastKind::Warning, "outbox-queued"@)],
        )
        &&& after == (AviaryApp { effects: after.effects, ..self })
    }

    /// A message could not be sent now: its composer stays open.
    pub fn on_outbox_queued(&mut self, compose_id: u64)
        ensures
            old(self).outbox_queued_handled(*final(self), compose_id),
    {
        let ghost start = self.effects.deep_view();
        self.send(Effect::ComposeQueued { compose_id });
        self.tell(ToastKind::Warning, "outbox-queued");
        assert(self.effects.deep_view() =~= start + seq![
            EffectView::ComposeQueued { compose_id },
            told(ToastKind::Warning, "outbox-queued"@),
        ]);
    }

    /// What is loaded again when a message was moved: a batch waits for its last message.
    pub open spec fn reload_asks(self, account_id: Seq<char>, target_folder_id: Seq<char>, reply: BulkReply) -> Seq<
        EffectView,
    > {
        if reply is Pending {
            Seq::empty()
        } else if self.mailbox.selected_folder_id.deep_view() == Some(target_folder_id) {
            seq![EffectView::SendRefresh, EffectView::LoadFolders { account_id }]
        } else {
            seq![EffectView::LoadFolders { account_id }]
        }
    }

    fn reload_after_move(&mut self, account_id: &AccountId, target_folder_id: &String, reply: &BulkReply)
        ensures
            final(self).asked(*old(self), old(self).reload_asks(account_id.0@, target_folder_id@, *reply)),
            *final(self) == (AviaryApp { effects: final(self).effects, ..*old(self) }),
    {
        let ghost start = self.effects.deep_view();
        let pending = match reply {
            BulkReply::Pending => true,
            _ => false,
        };
        if !pending {
            if is_text(&self.mailbox.selected_folder_id, target_folder_id) {
                self.send(Effect::SendRefresh);
            }
            self.send(Effect::LoadFolders { account_id: account_id.clone() });
        }
        assert(self.effects.deep_view() =~= start + old(self).reload_asks(account_id.0@, target_folder_id@, *reply));
    }

    /// What is told when a message was moved.
    pub open spec fn moved_notices(reference: MessageRefView, reply: BulkReply) -> Seq<EffectView> {
        if reply is Single {
            seq![
                mutation_told(
                    ToastKind::Success,
                    NoticeTextView::Key { key: "toast-message-moved"@ },
                    MutationKind::Move,
                    reference,
                ),
            ]
        } else {
            reply_notices(reply)
        }
    }

    fn tell_moved(&mut self, reference: MessageRef, reply: BulkReply)
        ensures
            final(self).asked(*old(self), Self::moved_notices(reference.deep_view(), reply)),
            *final(self) == (AviaryApp { effects: final(self).effects, ..*old(self) }),
    {
        if !reply.is_bulk() {
            self.tell_mutation(ToastKind::Success, "toast-message-moved", MutationKind::Move, reference);
        } else {
            self.report_bulk_completion(reply);
        }
    }

    /// What is asked for when a message was moved.
    pub open spec fn move_asks(
        self,
        reference: MessageRefView,
        target_folder_id: Seq<char>,
        new_id: Option<Seq<char>>,
        reply: BulkReply,
    ) -> Seq<EffectView> {
        seq![
            EffectView::ReplacePin { account_id: reference.account_id, id: reference.id, new_id },
            EffectView::ForgetMessage { id: reference.id },
            EffectView::UpdateTrayUnread,
        ] + self.reload_asks(reference.account_id, target_folder_id, reply) + Self::moved_notices(reference, reply)
    }

    /// What `on_message_moved` does.
    pub open spec fn message_moved_handled(self, after: AviaryApp, account_id: AccountId, message_id: String, target_folder_id: String, new_id: Option<String>, reply: BulkReply) -> bool {
        &&& after.mailbox.messages.deep_view() == self.mailbox.messages.deep_view().filter(
            other_message_id(message_id@),
        )
        &&& after.mailbox.search.results.deep_view() == results_without(
            self.mailbox.search.results.deep_view(),
            message_id@,
        )
        &&& after.asked(
            self,
            self.move_asks(
                MessageRefView { account_id: account_id.0@, id: message_id@ },
                target_folder_id@,
                new_id.deep_view(),
                reply,
            ),
        )
        &&& after == (AviaryApp {
            mailbox: MailboxState {
                messages: after.mailbox.messages,
                search: SearchState {
                    results: after.mailbox.search.results,
                    ..self.mailbox.search
                },
                ..self.mailbox
            },
            effects: after.effects,
            ..self
        })
    }

    /// A message was moved to another folder. A batch reloads the list and the folders
    /// once, when its last message was moved.
    pub fn on_message_moved(
        &mut self,
        account_id: AccountId,
        message_id: String,
        target_folder_id: String,
        new_id: Option<String>,
        reply: BulkReply,
    )
        ensures
            old(self).message_moved_handled(*final(self), account_id, message_id, target_folder_id, new_id, reply),
    {
        let ghost start = *self;
        let ghost shown = MessageRefView { account_id: account_id.0@, id: message_id@ };
        let ghost first = seq![
            EffectView::ReplacePin { account_id: account_id.0@, id: message_id@, new_id: new_id.deep_view() },
            EffectView::ForgetMessage { id: message_id@ },
            EffectView::UpdateTrayUnread,
        ];
        self.send(Effect::ReplacePin { account_id: account_id.clone(), id: message_id.clone(), new_id });
        self.remove_message_everywhere(&message_id);
        self.send(Effect::UpdateTrayUnread);
        let ghost removed = *self;
        assert(self.effects.deep_view() =~= start.effects.deep_view() + first);
        self.reload_after_move(&account_id, &target_folder_id, &reply);
        let ghost reloaded = *self;
        self.tell_moved(MessageRef { account_id, id: message_id }, reply);
        proof {
            let second = start.reload_asks(account_id.0@, target_folder_id@, reply);
            AviaryApp::lemma_asked(start, removed, reloaded, first, second);
            AviaryApp::lemma_asked(start, reloaded, *self, first + second, Self::moved_notices(shown, reply));
        }
    }

    /// What `on_message_deleted` does.
    pub open spec fn message_deleted_handled(self, after: AviaryApp, account_id: AccountId, id: String, reply: BulkReply) -> bool {
        &&& after.mailbox.messages.deep_view() == self.mailbox.messages.deep_view().filter(
            other_message_id(id@),
        )
        &&& after.mailbox.search.results.deep_view() == results_without(
            self.mailbox.search.results.deep_view(),
            id@,
        )
        &&& after.asked(
            self,
            seq![
                EffectView::SetPinned { account_id: account_id.0@, id: id@, pinned: false },
                EffectView::ForgetMessage { id: id@ },
                EffectView::UpdateTrayUnread,
            ] + (if reply is Single {
                seq![
                    mutation_told(
                        ToastKind::Success,
                        NoticeTextView::Key { key: "toast-message-deleted"@ },
                        MutationKind::Delete,
                        MessageRefView { account_id: account_id.0@, id: id@ },
                    ),
                ]
            } else {
                reply_notices(reply)
            }),
        )
        &&& after == (AviaryApp {
            mailbox: MailboxState {
                messages: after.mailbox.messages,
                search: SearchState {
                    results: after.mailbox.search.results,
                    ..self.mailbox.search
                },
                ..self.mailbox
            },
            effects: after.effects,
            ..self
        })
    }

    /// A message was deleted.
    pub fn on_message_deleted(&mut self, account_id: AccountId, id: String, reply: BulkReply)
        ensures
            old(self).message_deleted_handled(*final(self), account_id, id, reply),
    {
        let ghost start = self.effects.deep_view();
        self.send(Effect::SetPinned { account_id: account_id.clone(), id: id.clone(), pinned: false });
        self.remove_message_everywhere(&id);
        self.send(Effect::UpdateTrayUnread);
        let ghost front = seq![
            EffectView::SetPinned { account_id: account_id.0@, id: id@, pinned: false },
            EffectView::ForgetMessage { id: id@ },
            EffectView::UpdateTrayUnread,
        ];
        assert(self.effects.deep_view() =~= start + front);
        if !reply.is_bulk() {
            self.tell_mutation(
                ToastKind::Success,
                "toast-message-deleted",
                MutationKind::Delete,
                MessageRef { account_id, id },
            );
            assert(self.effects.deep_view() =~= start + (front + seq![
                mutation_told(
                    ToastKind::Success,
                    NoticeTextView::Key { key: "toast-message-deleted"@ },
                    MutationKind::Delete,
                    MessageRefView { account_id: account_id.0@, id: id@ },
                ),
            ]));
        } else {
            self.report_bulk_completion(reply);
            assert(self.effects.deep_view() =~= start + (front + reply_notices(reply)));
        }
    }
}

/// A batch tells at most one thing, and tells of every failure.
pub proof fn law_batches_tell_once(completion: BulkCompletion)
    ensures
        completion.notices().len() <= 1,
        completion.failed > 0 ==> completion.notices().len() == 1,
        reply_notices(BulkReply::Single).len() == 0,
        reply_notices(BulkReply::Pending).len() == 0,
{
}

} // verus!
