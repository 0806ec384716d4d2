//! Mail that was sent, drafts that were saved, and text that an assistant edits.
use crate::app::told;
use crate::list_entries::holds_text;
use crate::lists::{any_where, first_index, position_where};
use crate::model::AccountId;
use crate::reading::{entry_set, keyed};
use crate::recipes::{is_execution, is_quick_action_execution};
use crate::settings::{other_text, remove_text};
use crate::state::{
    AviaryApp, Effect, EffectView, MailboxState, Message, MessageView, SentMessage, SentMessageView, SentState,
    ToastKind,
};
use vstd::prelude::*;

verus! {

/// How many replies and forwards to one message are kept.
pub const SENT_LIMIT: usize = 20;

/// Whether a reply or forward has the given id.
pub open spec fn sent_with_id(id: Seq<char>) -> spec_fn(SentMessageView) -> bool {
    |sent: SentMessageView| sent.message.header.id == id
}

/// The replies and forwards to a message.
pub open spec fn sent_to(entries: Seq<(Seq<char>, Seq<SentMessageView>)>, key: Seq<char>) -> Seq<SentMessageView> {
    match first_index(entries, keyed::<Seq<SentMessageView>>(key)) {
        Some(i) => entries[i].1,
        None => Seq::empty(),
    }
}

/// The replies and forwards once one more was sent: the newest first, each once, and no
/// more than are kept.
pub open spec fn with_sent(entries: Seq<(Seq<char>, Seq<SentMessageView>)>, sent: SentMessageView) -> Seq<
    (Seq<char>, Seq<SentMessageView>),
> {
    let known = sent_to(entries, sent.related_to);
    if known.any(sent_with_id(sent.message.header.id)) {
        entries
    } else {
        let all = seq![sent] + known;
        entry_set(
            entries,
            sent.related_to,
            if all.len() > SENT_LIMIT {
                all.take(SENT_LIMIT as int)
            } else {
                all
            },
        )
    }
}

/// The replies and forwards to a message once a copy that was kept here is replaced by the
/// one of the provider.
pub open spec fn resolved(sent: Seq<SentMessageView>, snapshot_id: Seq<char>, message: MessageView) -> Seq<SentMessageView> {
    match first_index(sent, sent_with_id(snapshot_id)) {
        Some(i) => sent.update(
            i,
            SentMessageView { sent_id: Some(message.header.id), message, ..sent[i] },
        ),
        None => sent,
    }
}

/// What is unfolded once a message has another id.
pub open spec fn unfolded(expanded: Seq<Seq<char>>, from: Seq<char>, to: Seq<char>) -> Seq<Seq<char>> {
    if expanded.contains(from) {
        let rest = expanded.filter(other_text(from));
        if rest.contains(to) {
            rest
        } else {
            rest.push(to)
        }
    } else {
        expanded
    }
}

/// Place of the replies and forwards to a message.
fn sent_place(entries: &Vec<(String, Vec<SentMessage>)>, key: &String) -> (place: Option<usize>)
    ensures
        match place {
            Some(i) => i < entries.len() && first_index(
                entries.deep_view(),
                keyed::<Seq<SentMessageView>>(key@),
            ) == Some(i as int),
            None => first_index(entries.deep_view(), keyed::<Seq<SentMessageView>>(key@)) is None,
        },
{
    position_where(
        entries,
        |entry: &(String, Vec<SentMessage>)| -> (same: bool)
            ensures
                same == keyed::<Seq<SentMessageView>>(key@)(entry.deep_view())
            { entry.0 == *key },
        Ghost(keyed::<Seq<SentMessageView>>(key@)),
    )
}

/// Keeps a reply or forward that was sent.
fn keep_sent(entries: &mut Vec<(String, Vec<SentMessage>)>, sent: SentMessage)
    ensures
        final(entries).deep_view() == with_sent(old(entries).deep_view(), sent.deep_view()),
{
    let ghost before = entries.deep_view();
    let ghost shown = sent.deep_view();
    let place = sent_place(entries, &sent.related_to);
    match place {
        Some(i) => {
            assert(before[i as int] == entries[i as int].deep_view());
            let known = any_where(
                &entries[i].1,
                |other: &SentMessage| -> (same: bool)
                    ensures
                        same == sent_with_id(sent.message.header.id@)(other.deep_view())
                    { other.message.header.id == sent.message.header.id },
                Ghost(sent_with_id(sent.message.header.id@)),
            );
            if known {
                return;
            }
            let key = sent.related_to.clone();
            let mut old_list = crate::model::clone_list(&entries[i].1);
            let ghost rest = old_list.deep_view();
            let mut list: Vec<SentMessage> = Vec::new();
            list.push(sent);
            list.append(&mut old_list);
            assert(list.deep_view() =~= seq![shown] + rest);
            if list.len() > SENT_LIMIT {
                let ghost all = list.deep_view();
                list.truncate(SENT_LIMIT);
                assert(list.deep_view() =~= all.take(SENT_LIMIT as int));
            }
            let ghost kept = list.deep_view();
            entries.set(i, (key, list));
            assert(entries.deep_view() =~= before.update(i as int, (shown.related_to, kept)));
        },
        None => {
            assert(!Seq::<SentMessageView>::empty().any(sent_with_id(shown.message.header.id)));
            let key = sent.related_to.clone();
            let mut list: Vec<SentMessage> = Vec::new();
            list.push(sent);
            assert(list.deep_view() =~= seq![shown] + Seq::empty());
            entries.push((key, list));
            assert(entries.deep_view() =~= before.push((shown.related_to, seq![shown] + Seq::empty())));
        },
    }
}

impl AviaryApp {
    /// What is asked for when a mail was sent.
    pub open spec fn sent_asks(compose_id: u64, sent: Option<SentMessageView>, unresolved: bool) -> Seq<EffectView> {
        (match sent {
            Some(sent) if unresolved => seq![
                EffectView::FetchSentCopy {
                    account_id: sent.message.header.account_id,
                    related_to: sent.related_to,
                    snapshot_id: sent.message.header.id,
                    sent_id: sent.sent_id,
                    internet_message_id: sent.internet_message_id,
                },
            ],
            _ => Seq::empty(),
        }) + (if is_execution(compose_id) {
            Seq::empty()
        } else {
            seq![EffectView::CloseCompose { compose_id }, told(ToastKind::Success, "toast-message-sent"@)]
        })
    }

    /// What `on_mail_sent` does.
    pub open spec fn mail_sent_handled(self, after: AviaryApp, compose_id: u64, sent_message: Option<SentMessage>, unresolved: bool) -> bool {
        &&& after.mailbox.sent.messages.deep_view() == match sent_message {
            Some(sent) => with_sent(self.mailbox.sent.messages.deep_view(), sent.deep_view()),
            None => self.mailbox.sent.messages.deep_view(),
        }
        &&& after.asked(self, Self::sent_asks(compose_id, sent_message.deep_view(), unresolved))
        &&& after == (AviaryApp {
            mailbox: MailboxState {
                sent: SentState { messages: after.mailbox.sent.messages, ..self.mailbox.sent },
                ..self.mailbox
            },
            effects: after.effects,
            ..self
        })
    }

    /// A mail was sent. A reply or forward is kept below the message that it answers;
    /// `unresolved` tells that the provider's own copy of it is still to be had. A mail of
    /// a quick action has no composer to close.
    pub fn on_mail_sent(&mut self, compose_id: u64, sent_message: Option<SentMessage>, unresolved: bool)
        ensures
            old(self).mail_sent_handled(*final(self), compose_id, sent_message, unresolved),
    {
        let ghost start = self.effects.deep_view();
        let ghost wanted = Self::sent_asks(compose_id, sent_message.deep_view(), unresolved);
        if let Some(sent) = sent_message {
            if unresolved {
                self.send(
                    Effect::FetchSentCopy {
                        account_id: sent.message.header.account_id.clone(),
                        related_to: sent.related_to.clone(),
                        snapshot_id: sent.message.header.id.clone(),
                        sent_id: sent.sent_id.clone(),
                        internet_message_id: sent.internet_message_id.clone(),
                    },
                );
            }
            keep_sent(&mut self.mailbox.sent.messages, sent);
        }
        if !is_quick_action_execution(compose_id) {
            self.send(Effect::CloseCompose { compose_id });
            self.tell(ToastKind::Success, "toast-message-sent");
        }
        assert(self.effects.deep_view() =~= start + wanted);
    }

    /// Whether a copy of a reply or forward is kept here.
    pub open spec fn keeps_copy(self, related_to: Seq<char>, snapshot_id: Seq<char>) -> bool {
        sent_to(self.mailbox.sent.messages.deep_view(), related_to).any(sent_with_id(snapshot_id))
    }

    /// What `on_sent_copy_resolved` does.
    pub open spec fn sent_copy_resolved_handled(self, after: AviaryApp, related_to: String, snapshot_id: String, message: Message) -> bool {
        if self.keeps_copy(related_to@, snapshot_id@) {
            &&& after.mailbox.sent.messages.deep_view() == entry_set(
                self.mailbox.sent.messages.deep_view(),
                related_to@,
                resolved(
                    sent_to(self.mailbox.sent.messages.deep_view(), related_to@),
                    snapshot_id@,
                    message.deep_view(),
                ),
            )
            &&& after.mailbox.sent.expanded.deep_view() == unfolded(
                self.mailbox.sent.expanded.deep_view(),
                snapshot_id@,
                message.header.id@,
            )
            &&& after == (AviaryApp {
                mailbox: MailboxState { sent: after.mailbox.sent, ..self.mailbox },
                ..self
            })
        } else {
            after == self
        }
    }

    /// The provider's own copy of a reply or forward came: it takes the place of the one
    /// that was kept here, unfolded if that was.
    pub fn on_sent_copy_resolved(&mut self, related_to: String, snapshot_id: String, message: Message)
        ensures
            old(self).sent_copy_resolved_handled(*final(self), related_to, snapshot_id, message),
    {
        let ghost entries = self.mailbox.sent.messages.deep_view();
        let place = match sent_place(&self.mailbox.sent.messages, &related_to) {
            Some(i) => i,
            None => {
                assert(!Seq::<SentMessageView>::empty().any(sent_with_id(snapshot_id@)));
                return;
            },
        };
        assert(entries[place as int] == self.mailbox.sent.messages[place as int].deep_view());
        let ghost list = entries[place as int].1;
        proof {
            crate::lists::lemma_first_index(list, sent_with_id(snapshot_id@));
        }
        let at = match position_where(
            &self.mailbox.sent.messages[place].1,
            |sent: &SentMessage| -> (same: bool)
                ensures
                    same == sent_with_id(snapshot_id@)(sent.deep_view())
                { sent.message.header.id == snapshot_id },
            Ghost(sent_with_id(snapshot_id@)),
        ) {
            Some(j) => j,
            None => {
                return;
            },
        };
        let new_id = message.header.id.clone();
        let mut sent = crate::model::clone_list(&self.mailbox.sent.messages[place].1);
        assert(list[at as int] == sent[at as int].deep_view());
        let mut copy = sent[at].clone();
        copy.sent_id = Some(new_id.clone());
        copy.message = message;
        let ghost shown = copy.deep_view();
        sent.set(at, copy);
        assert(sent.deep_view() =~= list.update(at as int, shown));
        let ghost updated = sent.deep_view();
        self.mailbox.sent.messages.set(place, (related_to, sent));
        assert(self.mailbox.sent.messages.deep_view() =~= entries.update(place as int, (related_to@, updated)));
        if holds_text(&self.mailbox.sent.expanded, &snapshot_id) {
            remove_text(&mut self.mailbox.sent.expanded, &snapshot_id);
            if !holds_text(&self.mailbox.sent.expanded, &new_id) {
                let ghost rest = self.mailbox.sent.expanded.deep_view();
                self.mailbox.sent.expanded.push(new_id);
                assert(self.mailbox.sent.expanded.deep_view() =~= rest.push(message.header.id@));
            }
        }
    }

    /// What `on_ai_edit_chunk` does.
    pub open spec fn ai_edit_chunk_handled(self, after: AviaryApp, compose_id: u64, delta: String, translated: bool) -> bool {
        &&& after.asked(
            self,
            if translated {
                Seq::empty()
            } else {
                seq![EffectView::ComposeAiChunk { compose_id, delta: delta@ }]
            },
        )
        &&& after == (AviaryApp { effects: after.effects, ..self })
    }

    /// A piece of text that an assistant writes came. `translated` tells that the reading
    /// pane took it for a translation; otherwise it is for a composer. Tells whether the
    /// view is to be drawn again.
    pub fn on_ai_edit_chunk(&mut self, compose_id: u64, delta: String, translated: bool) -> (redraw: bool)
        ensures
            redraw == translated,
            old(self).ai_edit_chunk_handled(*final(self), compose_id, delta, translated),
    {
        assert(self.effects.deep_view() =~= old(self).effects.deep_view() + Seq::<EffectView>::empty());
        if !translated {
            self.send(Effect::ComposeAiChunk { compose_id, delta });
        }
        translated
    }

    /// What `on_ai_edit_finished` does.
    pub open spec fn ai_edit_finished_handled(self, after: AviaryApp, compose_id: u64, markdown: String, translated: bool) -> bool {
        &&& after.asked(
            self,
            if translated {
                seq![told(ToastKind::Success, "viewer-translation-done"@)]
            } else {
                seq![
                    EffectView::ComposeAiFinished { compose_id, markdown: markdown@ },
                    told(ToastKind::Success, "compose-ai-done"@),
                ]
            },
        )
        &&& after == (AviaryApp { effects: after.effects, ..self })
    }

    /// An assistant finished a text.
    pub fn on_ai_edit_finished(&mut self, compose_id: u64, markdown: String, translated: bool)
        ensures
            old(self).ai_edit_finished_handled(*final(self), compose_id, markdown, translated),
    {
        let ghost start = self.effects.deep_view();
        if translated {
            self.tell(ToastKind::Success, "viewer-translation-done");
        } else {
            self.send(Effect::ComposeAiFinished { compose_id, markdown });
            self.tell(ToastKind::Success, "compose-ai-done");
            assert(self.effects.deep_view() =~= start + seq![
                EffectView::ComposeAiFinished { compose_id, markdown: markdown@ },
                told(ToastKind::Success, "compose-ai-done"@),
            ]);
        }
    }

    /// What `on_ai_edit_error` does.
    pub open spec fn ai_edit_error_handled(self, after: AviaryApp, compose_id: u64, error: String, translated: bool) -> bool {
        &&& after.asked(
            self,
            if translated {
                seq![EffectView::NotifyError { error: error@ }]
            } else {
                seq![
                    EffectView::ComposeAiError { compose_id, error: error@ },
                    EffectView::NotifyError { error: error@ },
                ]
            },
        )
        &&& after == (AviaryApp { effects: after.effects, ..self })
    }

    /// An assistant failed.
    pub fn on_ai_edit_error(&mut self, compose_id: u64, error: String, translated: bool)
        ensures
            old(self).ai_edit_error_handled(*final(self), compose_id, error, translated),
    {
        let ghost start = self.effects.deep_view();
        if translated {
            self.send(Effect::NotifyError { error });
        } else {
            self.send(Effect::ComposeAiError { compose_id, error: error.clone() });
            self.send(Effect::NotifyError { error });
            assert(self.effects.deep_view() =~= start + seq![
                EffectView::ComposeAiError { compose_id, error: error@ },
                EffectView::NotifyError { error: error@ },
            ]);
        }
    }

    /// What `on_compose_runtime_error` does.
    pub open spec fn compose_runtime_error_handled(self, after: AviaryApp, compose_id: u64, error: String) -> bool {
        &&& after.asked(
            self,
            seq![
                EffectView::ComposeError { compose_id, error: error@ },
                EffectView::NotifyError { error: error@ },
            ],
        )
        &&& after == (AviaryApp { effects: after.effects, ..self })
    }

    /// A composer's request failed.
    pub fn on_compose_runtime_error(&mut self, compose_id: u64, error: String)
        ensures
            old(self).compose_runtime_error_handled(*final(self), compose_id, error),
    {
        let ghost start = self.effects.deep_view();
        self.send(Effect::ComposeError { compose_id, error: error.clone() });
        self.send(Effect::NotifyError { error });
        assert(self.effects.deep_view() =~= start + seq![
            EffectView::ComposeError { compose_id, error: error@ },
            EffectView::NotifyError { error: error@ },
        ]);
    }

    /// What `on_draft_saved` does.
    pub open spec fn draft_saved_handled(self, after: AviaryApp, account_id: AccountId, compose_id: u64, draft_id: Option<String>, autosave: bool) -> bool {
        &&& after.asked(
            self,
            seq![
                EffectView::ComposeDraftSaved {
                    account_id: account_id.0@,
                    compose_id,
                    draft_id: draft_id.deep_view(),
                    autosave,
                },
            ] + (if autosave {
                Seq::empty()
            } else {
                seq![told(ToastKind::Success, "toast-draft-saved"@)]
            }),
        )
        &&& after == (AviaryApp { effects: after.effects, ..self })
    }

    /// A draft was saved. One that was saved by itself is not told.
    pub fn on_draft_saved(&mut self, account_id: AccountId, compose_id: u64, draft_id: Option<String>, autosave: bool)
        ensures
            old(self).draft_saved_handled(*final(self), account_id, compose_id, draft_id, autosave),
    {
        let ghost start = self.effects.deep_view();
        let ghost first = seq![
            EffectView::ComposeDraftSaved {
                account_id: account_id.0@,
                compose_id,
                draft_id: draft_id.deep_view(),
                autosave,
            },
        ];
        self.send(Effect::ComposeDraftSaved { account_id, compose_id, draft_id, autosave });
        if !autosave {
            self.tell(ToastKind::Success, "toast-draft-saved");
            assert(self.effects.deep_view() =~= start + (first + seq![
                told(ToastKind::Success, "toast-draft-saved"@),
            ]));
        } else {
            assert(self.effects.deep_view() =~= start + (first + Seq::<EffectView>::empty()));
        }
    }

    /// What `on_draft_save_error` does.
    pub open spec fn draft_save_error_handled(self, after: AviaryApp, account_id: AccountId, compose_id: u64, error: String, autosave: bool) -> bool {
        &&& after.asked(
            self,
            if autosave {
                seq![
                    EffectView::ComposeDraftError { account_id: account_id.0@, compose_id, error: error@ },
                ]
            } else {
                seq![
                    EffectView::ComposeError { compose_id, error: error@ },
                    EffectView::NotifyError { error: error@ },
                ]
            },
        )
        &&& after == (AviaryApp { effects: after.effects, ..self })
    }

    /// A draft could not be saved. One that was to be saved by itself is told in its
    /// composer only.
    pub fn on_draft_save_error(&mut self, account_id: AccountId, compose_id: u64, error: String, autosave: bool)
        ensures
            old(self).draft_save_error_handled(*final(self), account_id, compose_id, error, autosave),
    {
        if autosave {
            self.send(Effect::ComposeDraftError { account_id, compose_id, error });
        } else {
            self.on_compose_runtime_error(compose_id, error);
        }
    }
}

/// Of the replies and forwards to a message no more than the limit are kept, and the one
/// that was sent last is the first, unless it was known.
pub proof fn law_sent_mail_is_kept_within_the_limit(entries: Seq<(Seq<char>, Seq<SentMessageView>)>, sent: SentMessageView)
    ensures
        sent_to(entries, sent.related_to).len() <= SENT_LIMIT ==> sent_to(
            with_sent(entries, sent),
            sent.related_to,
        ).len() <= SENT_LIMIT,
        !sent_to(entries, sent.related_to).any(sent_with_id(sent.message.header.id)) ==> sent_to(
            with_sent(entries, sent),
            sent.related_to,
        )[0] == sent,
{
    let key = sent.related_to;
    let test = keyed::<Seq<SentMessageView>>(key);
    let after = with_sent(entries, sent);
    crate::lists::lemma_first_index(entries, test);
    if !sent_to(entries, key).any(sent_with_id(sent.message.header.id)) {
        match first_index(entries, test) {
            Some(i) => {
                assert forall|j: int| 0 <= j < i implies !test(#[trigger] after[j]) by {
                    assert(after[j] == entries[j]);
                }
                assert(test(after[i]));
                crate::lists::lemma_first_index_is(after, test, i);
            },
            None => {
                let i = entries.len() as int;
                assert forall|j: int| 0 <= j < i implies !test(#[trigger] after[j]) by {
                    assert(after[j] == entries[j]);
                }
                assert(test(after[i]));
                crate::lists::lemma_first_index_is(after, test, i);
            },
        }
    }
}

} // verus!
