//! Mail that comes in, messages that are opened, conversations and the search.
use crate::app::{drop_account, holds_account, is_text, other_account, passing, same_text};
use crate::headers::{
    appended, dedup_append, newest_first, other_message_id, sort_newest, upsert_headers, upserted, HeaderChange,
};
use crate::lists::{lemma_filter_all, lemma_filter_twice, map_each, stable_sort, take_list};
use crate::mailbox_events::in_results;
use crate::model::{AccountId, LastAction, MessageHeader, MessageHeaderView};
use crate::reading::{entry_set, history_for, history_request, in_tab, map_tabs, set_entry};
use crate::settings::{is_blocked, MailSearchSort};
use crate::state::{
    AviaryApp, Effect, EffectView, MailboxState, Message, MessageView, NoticeText, NoticeTextView, PendingState,
    SearchState, SenderHistoryState, SenderHistoryStateView, ThreadBodyState, ThreadBodyStateView, ToastKind,
    ViewerState, ViewerTab, ViewerTabView, Shortened, ShortenedView,
};
use vstd::prelude::*;

verus! {

/// Results in the order that was chosen.
pub open spec fn in_order(results: Seq<MessageHeaderView>, sort: MailSearchSort) -> Seq<MessageHeaderView> {
    match sort {
        MailSearchSort::Relevance => results,
        MailSearchSort::Date => stable_sort(results, newest_first()),
    }
}

/// A message that was read.
pub open spec fn as_read(message: MessageView) -> MessageView {
    MessageView { header: MessageHeaderView { is_read: true, ..message.header }, ..message }
}

/// A tab after the body of message `id` came.
pub open spec fn tab_filled(id: Seq<char>, message: MessageView) -> spec_fn(ViewerTabView) -> ViewerTabView {
    |tab: ViewerTabView|
        {
            let shows = match tab {
                ViewerTabView::Message { message: existing } => existing.header.id == id
                    && existing.header.account_id == message.header.account_id,
                ViewerTabView::Loading { reference } => reference.id == id && reference.account_id
                    == message.header.account_id,
                ViewerTabView::Compose { .. } => false,
            };
            if shows {
                ViewerTabView::Message { message: as_read(message) }
            } else {
                tab
            }
        }
}

/// A message whose action was noted.
pub open spec fn with_action(id: Seq<char>, action: LastAction, at: i128) -> spec_fn(MessageView) -> MessageView {
    |message: MessageView|
        if message.header.id == id {
            MessageView { header: (HeaderChange::Action { action, at }).applied(message.header), ..message }
        } else {
            message
        }
}

/// The request for the conversation of a message.
pub open spec fn thread_asks(account_id: Seq<char>, message: MessageView) -> Seq<EffectView> {
    match message.header.conversation_id {
        Some(conversation_id) => seq![EffectView::LoadThread { account_id, conversation_id }],
        None => Seq::empty(),
    }
}

/// Whether a message is of a sender on the list.
pub open spec fn from_blocked(blocked: Seq<Seq<char>>) -> spec_fn(MessageHeaderView) -> bool {
    |header: MessageHeaderView| is_blocked(blocked, header.from)
}

/// Whether a message is of a sender that is not on the list.
pub open spec fn from_others(blocked: Seq<Seq<char>>) -> spec_fn(MessageHeaderView) -> bool {
    |header: MessageHeaderView| !is_blocked(blocked, header.from)
}

/// Whether a header is none of the given messages.
pub open spec fn none_of(ids: Seq<Seq<char>>) -> spec_fn(MessageHeaderView) -> bool {
    |header: MessageHeaderView| !ids.contains(header.id)
}

/// The results without the given messages, where there are results.
pub open spec fn results_outside(results: Option<Seq<MessageHeaderView>>, ids: Seq<Seq<char>>) -> Option<
    Seq<MessageHeaderView>,
> {
    match results {
        Some(headers) => Some(headers.filter(none_of(ids))),
        None => None,
    }
}

/// What the other views are to forget.
pub open spec fn forgotten(ids: Seq<Seq<char>>) -> Seq<EffectView> {
    ids.map_values(|id: Seq<char>| EffectView::ForgetMessage { id })
}

proof fn lemma_one_fewer(headers: Seq<MessageHeaderView>, ids: Seq<Seq<char>>, k: int)
    requires
        0 <= k < ids.len(),
    ensures
        headers.filter(none_of(ids.take(k))).filter(other_message_id(ids[k])) == headers.filter(
            none_of(ids.take(k + 1)),
        ),
{
    let p = none_of(ids.take(k));
    let q = other_message_id(ids[k]);
    let both = none_of(ids.take(k + 1));
    assert forall|x: MessageHeaderView| #[trigger] both(x) == (p(x) && q(x)) by {
        let shorter = ids.take(k);
        let longer = ids.take(k + 1);
        if shorter.contains(x.id) {
            let j = choose|j: int| 0 <= j < shorter.len() && shorter[j] == x.id;
            assert(longer[j] == x.id);
        }
        if ids[k] == x.id {
            assert(longer[k] == x.id);
        }
        if longer.contains(x.id) {
            let j = choose|j: int| 0 <= j < longer.len() && longer[j] == x.id;
            if j < k {
                assert(shorter[j] == x.id);
            }
        }
    }
    lemma_filter_twice(headers, p, q, both);
}

impl AviaryApp {
    /// The messages of blocked senders.
    pub open spec fn blocked(self) -> spec_fn(MessageHeaderView) -> bool {
        from_blocked(self.settings.global.blocked_senders.deep_view())
    }

    /// The messages of other senders.
    pub open spec fn welcome(self) -> spec_fn(MessageHeaderView) -> bool {
        from_others(self.settings.global.blocked_senders.deep_view())
    }

    /// What is asked for about messages of blocked senders.
    pub open spec fn junk_asks(self, messages: Seq<MessageHeaderView>) -> Seq<EffectView> {
        messages.filter(self.blocked()).map_values(
            |header: MessageHeaderView| EffectView::MoveToJunk { reference: header.reference() },
        )
    }

    /// The notifications about messages that came: one for each, or one for many.
    pub open spec fn new_mail_notices(self, messages: Seq<MessageHeaderView>) -> Seq<EffectView> {
        if !self.settings.global.notifications_enabled {
            Seq::empty()
        } else if messages.len() > 2 {
            seq![EffectView::NotifyNewMessages { count: messages.len() as usize }]
        } else {
            messages.map_values(
                |header: MessageHeaderView| EffectView::NotifyNewMessage { reference: header.reference() },
            )
        }
    }

    /// Takes the messages of blocked senders out and lets them be moved to the junk folder.
    fn junk_blocked_messages(&mut self, messages: Vec<MessageHeader>) -> (kept: Vec<MessageHeader>)
        ensures
            kept.deep_view() == messages.deep_view().filter(old(self).welcome()),
            final(self).asked(*old(self), old(self).junk_asks(messages.deep_view())),
            *final(self) == (AviaryApp { effects: final(self).effects, ..*old(self) }),
    {
        let ghost start = *self;
        let ghost all = messages.deep_view();
        let ghost raw = messages@;
        let ghost ask = |header: MessageHeaderView| EffectView::MoveToJunk { reference: header.reference() };
        let mut kept: Vec<MessageHeader> = Vec::new();
        proof {
            reveal(Seq::filter);
            assert(kept.deep_view() =~= all.take(0).filter(start.welcome()));
            assert(self.effects.deep_view() =~= start.effects.deep_view() + start.junk_asks(all.take(0)));
        }
        for header in iter: messages.into_iter()
            invariant
                iter.seq() == raw,
                all.len() == raw.len(),
                forall|i: int| 0 <= i < raw.len() ==> all[i] == #[trigger] raw[i].deep_view(),
                ask == (|header: MessageHeaderView| EffectView::MoveToJunk { reference: header.reference() }),
                kept.deep_view() == all.take(iter.index() as int).filter(start.welcome()),
                self.asked(start, start.junk_asks(all.take(iter.index() as int))),
                *self == (AviaryApp { effects: self.effects, ..start }),
        {
            let ghost k = iter.index() as int;
            let ghost before = kept.deep_view();
            let ghost middle = *self;
            proof {
                reveal(Seq::filter);
                assert(all[k] == raw[k].deep_view());
                assert(all.take(k + 1).drop_last() =~= all.take(k));
                let front = all.take(k).filter(start.blocked());
                assert(front.push(all[k]).map_values(ask) =~= front.map_values(ask) + seq![ask(all[k])]);
            }
            if self.settings.global.sender_is_blocked(header.from.as_str()) {
                let reference = header.reference();
                self.send(Effect::MoveToJunk { reference });
                proof {
                    AviaryApp::lemma_asked(
                        start,
                        middle,
                        *self,
                        start.junk_asks(all.take(k)),
                        seq![ask(all[k])],
                    );
                }
            } else {
                kept.push(header);
                assert(kept.deep_view() =~= before.push(all[k]));
            }
        }
        assert(all.take(all.len() as int) =~= all);
        kept
    }

    /// Shows the notifications about messages that came.
    fn notify_new(&mut self, messages: &Vec<MessageHeader>)
        ensures
            final(self).asked(*old(self), old(self).new_mail_notices(messages.deep_view())),
            *final(self) == (AviaryApp { effects: final(self).effects, ..*old(self) }),
    {
        let ghost start = *self;
        let ghost all = messages.deep_view();
        let ghost tell = |header: MessageHeaderView|
            EffectView::NotifyNewMessage { reference: header.reference() };
        if !self.settings.global.notifications_enabled {
            assert(self.effects.deep_view() =~= start.effects.deep_view() + Seq::<EffectView>::empty());
            return;
        }
        if messages.len() > 2 {
            self.send(Effect::NotifyNewMessages { count: messages.len() });
            return;
        }
        let mut i: usize = 0;
        assert(self.effects.deep_view() =~= start.effects.deep_view() + all.take(0).map_values(tell));
        while i < messages.len()
            invariant
                i <= messages.len(),
                all == messages.deep_view(),
                tell == (|header: MessageHeaderView|
                    EffectView::NotifyNewMessage { reference: header.reference() }),
                self.asked(start, all.take(i as int).map_values(tell)),
                *self == (AviaryApp { effects: self.effects, ..start }),
            decreases messages.len() - i,
        {
            let ghost middle = *self;
            assert(all[i as int] == messages[i as int].deep_view());
            self.send(Effect::NotifyNewMessage { reference: messages[i].reference() });
            proof {
                AviaryApp::lemma_asked(
                    start,
                    middle,
                    *self,
                    all.take(i as int).map_values(tell),
                    seq![tell(all[i as int])],
                );
                assert(all.take(i as int).map_values(tell) + seq![tell(all[i as int])] =~= all.take(
                    i + 1,
                ).map_values(tell));
            }
            i += 1;
        }
        assert(all.take(all.len() as int) =~= all);
    }

    /// The requests that new mail leads to.
    pub open spec fn new_mail_asks(self, account_id: Seq<char>, messages: Seq<MessageHeaderView>) -> Seq<EffectView> {
        let kept = messages.filter(self.welcome());
        self.junk_asks(messages) + (if kept.len() == 0 {
            Seq::empty()
        } else {
            self.new_mail_notices(kept) + (if self.relevant(account_id) {
                seq![EffectView::UpdateTrayUnread]
            } else {
                Seq::empty()
            })
        })
    }

    /// What `on_new_messages` does.
    pub open spec fn new_messages_handled(self, after: AviaryApp, account_id: AccountId, messages: Vec<MessageHeader>) -> bool {
        let kept = messages.deep_view().filter(self.welcome());
        &&& after.asked(self, self.new_mail_asks(account_id.0@, messages.deep_view()))
        &&& if kept.len() == 0 || !self.relevant(account_id.0@) {
            after == (AviaryApp { effects: after.effects, ..self })
        } else {
            &&& after.mailbox.messages.deep_view() == appended(
                Seq::empty(),
                kept + self.mailbox.messages.deep_view(),
            )
            &&& after == (AviaryApp {
                mailbox: MailboxState { messages: after.mailbox.messages, ..self.mailbox },
                effects: after.effects,
                ..self
            })
        }
    }

    /// Mail came in. Messages of blocked senders go to the junk folder unseen, whichever
    /// account is on display; of the others the newcomers head the list, each message once.
    pub fn on_new_messages(&mut self, account_id: AccountId, messages: Vec<MessageHeader>)
        ensures
            old(self).new_messages_handled(*final(self), account_id, messages),
    {
        let ghost start = *self;
        let ghost all = messages.deep_view();
        let ghost kept = all.filter(start.welcome());
        let messages = self.junk_blocked_messages(messages);
        let ghost first = *self;
        proof {
            assert(messages.deep_view().len() == messages.len());
            assert(start.junk_asks(all) + Seq::<EffectView>::empty() =~= start.junk_asks(all));
        }
        if messages.len() == 0 {
            return;
        }
        self.notify_new(&messages);
        let ghost second = *self;
        proof {
            AviaryApp::lemma_asked(start, first, second, start.junk_asks(all), start.new_mail_notices(kept));
            assert(start.new_mail_notices(kept) + Seq::<EffectView>::empty() =~= start.new_mail_notices(kept));
        }
        if !self.event_relevant(&account_id) {
            return;
        }
        let mut new = messages;
        let mut current = take_list(&mut self.mailbox.messages);
        let ghost old_list = current.deep_view();
        new.append(&mut current);
        assert(new.deep_view() =~= kept + old_list);
        let empty: Vec<MessageHeader> = Vec::new();
        assert(empty.deep_view() =~= Seq::empty());
        self.mailbox.messages = dedup_append(empty, new);
        let ghost third = *self;
        self.send(Effect::UpdateTrayUnread);
        proof {
            assert(third.asked(start, start.junk_asks(all) + start.new_mail_notices(kept)));
            AviaryApp::lemma_asked(
                start,
                third,
                *self,
                start.junk_asks(all) + start.new_mail_notices(kept),
                seq![EffectView::UpdateTrayUnread],
            );
            assert(start.junk_asks(all) + start.new_mail_notices(kept) + seq![EffectView::UpdateTrayUnread]
                =~= start.new_mail_asks(account_id.0@, all));
        }
    }

    /// What `on_message_changes` does.
    pub open spec fn message_changes_handled(self, after: AviaryApp, account_id: AccountId, folder_id: Option<String>, upserts: Vec<MessageHeader>, deleted: Vec<String>) -> bool {
        if !self.relevant(account_id.0@) || self.mailbox.selected_folder_id.deep_view()
            != folder_id.deep_view() {
            after == self
        } else {
            &&& after.mailbox.messages.deep_view() == stable_sort(
                upserted(
                    self.mailbox.messages.deep_view().filter(none_of(deleted.deep_view())),
                    account_id.0@,
                    upserts.deep_view(),
                ),
                newest_first(),
            )
            &&& after.mailbox.search.results.deep_view() == results_outside(
                self.mailbox.search.results.deep_view(),
                deleted.deep_view(),
            )
            &&& after.asked(
                self,
                forgotten(deleted.deep_view()) + seq![EffectView::UpdateTrayUnread],
            )
            &&& after == (AviaryApp {
                mailbox: MailboxState {
                    messages: after.mailbox.messages,
                    search: SearchState {
                        results: after.mailbox.search.results,
                        ..self.mailbox.search
                    },
                    ..self.mailbox
                },
                effects: after.effects,
                ..self
            })
        }
    }

    /// Headers of a folder changed or went away.
    pub fn on_message_changes(
        &mut self,
        account_id: AccountId,
        folder_id: Option<String>,
        upserts: Vec<MessageHeader>,
        deleted: Vec<String>,
    )
        ensures
            old(self).message_changes_handled(*final(self), account_id, folder_id, upserts, deleted),
    {
        if !self.event_relevant(&account_id) || !same_text(&self.mailbox.selected_folder_id, &folder_id) {
            return;
        }
        let ghost start = *self;
        let ghost ids = deleted.deep_view();
        let ghost list = self.mailbox.messages.deep_view();
        let ghost results = self.mailbox.search.results.deep_view();
        let ghost forget = |id: Seq<char>| EffectView::ForgetMessage { id };
        let mut i: usize = 0;
        proof {
            lemma_filter_all(list, none_of(ids.take(0)));
            if let Some(found) = results {
                lemma_filter_all(found, none_of(ids.take(0)));
            }
            assert(self.effects.deep_view() =~= start.effects.deep_view() + forgotten(ids.take(0)));
        }
        while i < deleted.len()
            invariant
                i <= deleted.len(),
                ids == deleted.deep_view(),
                list == start.mailbox.messages.deep_view(),
                results == start.mailbox.search.results.deep_view(),
                forget == (|id: Seq<char>| EffectView::ForgetMessage { id }),
                self.mailbox.messages.deep_view() == list.filter(none_of(ids.take(i as int))),
                self.mailbox.search.results.deep_view() == results_outside(results, ids.take(i as int)),
                self.asked(start, forgotten(ids.take(i as int))),
                *self == (AviaryApp {
                    mailbox: MailboxState {
                        messages: self.mailbox.messages,
                        search: SearchState { results: self.mailbox.search.results, ..start.mailbox.search },
                        ..start.mailbox
                    },
                    effects: self.effects,
                    ..start
                }),
            decreases deleted.len() - i,
        {
            let ghost middle = *self;
            assert(ids[i as int] == deleted[i as int]@);
            self.remove_message_everywhere(&deleted[i]);
            proof {
                lemma_one_fewer(list, ids, i as int);
                if let Some(found) = results {
                    lemma_one_fewer(found, ids, i as int);
                }
                AviaryApp::lemma_asked(
                    start,
                    middle,
                    *self,
                    forgotten(ids.take(i as int)),
                    seq![forget(ids[i as int])],
                );
                assert(forgotten(ids.take(i as int)) + seq![forget(ids[i as int])] =~= forgotten(ids.take(i + 1)));
            }
            i += 1;
        }
        assert(ids.take(ids.len() as int) =~= ids);
        upsert_headers(&mut self.mailbox.messages, &account_id, upserts);
        let taken = take_list(&mut self.mailbox.messages);
        self.mailbox.messages = sort_newest(taken);
        let ghost middle = *self;
        self.send(Effect::UpdateTrayUnread);
        proof {
            AviaryApp::lemma_asked(start, middle, *self, forgotten(ids), seq![EffectView::UpdateTrayUnread]);
        }
    }
}

impl AviaryApp {
    /// Whether a card of the board waits for a message to open in a tab.
    pub open spec fn board_opens(self, account_id: Seq<char>, id: Seq<char>) -> bool {
        self.pending.kanban_open.deep_view() == Some((account_id, id))
    }

    /// Whether a message is to be answered or forwarded, or opened from the board.
    pub open spec fn explicitly_pending(self, account_id: Seq<char>, id: Seq<char>) -> bool {
        ||| self.board_opens(account_id, id)
        ||| self.pending.reply_id.deep_view() == Some(id)
        ||| self.pending.forward_id.deep_view() == Some(id)
    }

    /// Whether a message that was opened is still wanted.
    pub open spec fn wants(self, account_id: Seq<char>, id: Seq<char>) -> bool {
        self.explicitly_pending(account_id, id) || self.mailbox.viewer.selected_id.deep_view() == Some(id)
    }

    /// What is asked for when a message is to be answered or forwarded.
    pub open spec fn answer_asks(self, account_id: Seq<char>, message: MessageView) -> Seq<EffectView> {
        (if self.pending.reply_id.deep_view() == Some(message.header.id) {
            seq![EffectView::ReplyAll { account_id, message }]
        } else {
            Seq::empty()
        }) + (if self.pending.forward_id.deep_view() == Some(message.header.id) {
            seq![EffectView::Forward { account_id, message }]
        } else {
            Seq::empty()
        })
    }

    /// What is still to be answered and forwarded once message `id` was.
    pub open spec fn answered(self, id: Seq<char>) -> PendingState {
        PendingState {
            reply_id: if self.pending.reply_id.deep_view() == Some(id) {
                None
            } else {
                self.pending.reply_id
            },
            forward_id: if self.pending.forward_id.deep_view() == Some(id) {
                None
            } else {
                self.pending.forward_id
            },
            ..self.pending
        }
    }

    /// Answers and forwards a message that waited for its body.
    fn answer_pending(&mut self, account_id: &AccountId, message: &Message)
        ensures
            final(self).asked(*old(self), old(self).answer_asks(account_id.0@, message.deep_view())),
            *final(self) == (AviaryApp {
                pending: old(self).answered(message.header.id@),
                effects: final(self).effects,
                ..*old(self)
            }),
    {
        let ghost start = *self;
        let ghost shown = message.deep_view();
        let ghost asks = start.answer_asks(account_id.0@, shown);
        let ghost mut first: Seq<EffectView> = Seq::empty();
        assert(self.effects.deep_view() =~= start.effects.deep_view() + first);
        if is_text(&self.pending.reply_id, &message.header.id) {
            self.pending.reply_id = None;
            self.send(Effect::ReplyAll { account_id: account_id.clone(), message: message.clone() });
            proof {
                first = seq![EffectView::ReplyAll { account_id: account_id.0@, message: shown }];
            }
        }
        let ghost middle = *self;
        assert(middle.asked(start, first));
        if is_text(&self.pending.forward_id, &message.header.id) {
            self.pending.forward_id = None;
            self.send(Effect::Forward { account_id: account_id.clone(), message: message.clone() });
            proof {
                AviaryApp::lemma_asked(
                    start,
                    middle,
                    *self,
                    first,
                    seq![EffectView::Forward { account_id: account_id.0@, message: shown }],
                );
            }
        } else {
            assert(asks =~= first);
        }
    }

    /// The application once it no longer waits for the message of a notification.
    pub open spec fn notification_served(self, account_id: Seq<char>, id: Seq<char>) -> AviaryApp {
        AviaryApp {
            pending: PendingState {
                notification_open: if self.awaited(account_id, id) {
                    None
                } else {
                    self.pending.notification_open
                },
                ..self.pending
            },
            ..self
        }
    }

    /// What is asked for when a message that is no draft is opened.
    pub open spec fn open_asks(self, account_id: Seq<char>, message: MessageView) -> Seq<EffectView> {
        thread_asks(account_id, message) + (if self.board_opens(account_id, message.header.id) {
            seq![EffectView::OpenTab { message }]
        } else {
            self.answer_asks(account_id, message)
        })
    }

    /// A message was opened: a draft goes to a composer, a message that a card of the
    /// board waits for to a tab, any other to the reading pane. One that nobody waits
    /// for any more is left alone.
    pub open spec fn opened(self, account_id: Seq<char>, message: MessageView, after: AviaryApp) -> bool {
        let id = message.header.id;
        let now = self.notification_served(account_id, id);
        if !now.wants(account_id, id) {
            after == now
        } else if message.draft_id is Some {
            &&& after.asked(self, seq![EffectView::OpenDraft { account_id, message }])
            &&& after == (AviaryApp {
                kanban: crate::kanban::BoardState {
                    preview: if now.kanban.preview.deep_view() == Some((account_id, id)) {
                        None
                    } else {
                        now.kanban.preview
                    },
                    ..now.kanban
                },
                effects: after.effects,
                ..now
            })
        } else {
            now.opened_mail(account_id, message, after)
        }
    }

    /// A message that is no draft is marked as read, and shown in a tab or in the reading
    /// pane.
    pub open spec fn opened_mail(self, account_id: Seq<char>, message: MessageView, after: AviaryApp) -> bool {
        let id = message.header.id;
        let read = (HeaderChange::Read { read: true }).of_id(id);
        &&& after.mailbox.messages.deep_view() == self.mailbox.messages.deep_view().map_values(read)
        &&& after.mailbox.search.results.deep_view() == in_results(self.mailbox.search.results.deep_view(), read)
        &&& if self.board_opens(account_id, id) {
            &&& after.asked(self, self.open_asks(account_id, message))
            &&& after == (AviaryApp {
                mailbox: MailboxState {
                    messages: after.mailbox.messages,
                    search: SearchState { results: after.mailbox.search.results, ..self.mailbox.search },
                    ..self.mailbox
                },
                pending: PendingState { kanban_open: None, ..self.pending },
                effects: after.effects,
                ..self
            })
        } else {
            self.shown_here(account_id, message, after)
        }
    }

    /// The history and the requests for it when a message is shown in the reading pane.
    pub open spec fn history_of_opened(self, viewer: ViewerState) -> (SenderHistoryStateView, Seq<EffectView>) {
        if self.sender_history_expanded {
            (
                history_for(viewer, self.sender_history.deep_view()),
                history_request(viewer, self.sender_history.deep_view(), self.settings),
            )
        } else {
            (SenderHistoryStateView::Idle, Seq::empty())
        }
    }

    /// The reading pane shows a message that was opened.
    pub open spec fn shown_here(self, account_id: Seq<char>, message: MessageView, after: AviaryApp) -> bool {
        let id = message.header.id;
        let viewer = after.mailbox.viewer;
        &&& viewer.selected.deep_view() == Some(as_read(message))
        &&& viewer.selected_id.deep_view() == Some(id)
        &&& after.sender_history.deep_view() == self.history_of_opened(viewer).0
        &&& after.asked(self, self.open_asks(account_id, message) + self.history_of_opened(viewer).1)
        &&& after == (AviaryApp {
            mailbox: MailboxState {
                messages: after.mailbox.messages,
                search: SearchState { results: after.mailbox.search.results, ..self.mailbox.search },
                viewer: ViewerState {
                    selected: viewer.selected,
                    selected_id: viewer.selected_id,
                    ..self.mailbox.viewer
                },
                ..self.mailbox
            },
            pending: self.answered(id),
            sender_history: after.sender_history,
            effects: after.effects,
            ..self
        })
    }

    /// Shows a message in the reading pane, once its conversation was asked for.
    fn show_message(&mut self, account_id: AccountId, message: Message)
        ensures
            ({
                let id = message.header.id@;
                let viewer = final(self).mailbox.viewer;
                &&& viewer.selected.deep_view() == Some(as_read(message.deep_view()))
                &&& viewer.selected_id.deep_view() == Some(id)
                &&& final(self).sender_history.deep_view() == old(self).history_of_opened(viewer).0
                &&& final(self).asked(
                    *old(self),
                    old(self).answer_asks(account_id.0@, message.deep_view()) + old(self).history_of_opened(
                        viewer,
                    ).1,
                )
                &&& *final(self) == (AviaryApp {
                    mailbox: MailboxState {
                        viewer: ViewerState {
                            selected: viewer.selected,
                            selected_id: viewer.selected_id,
                            ..old(self).mailbox.viewer
                        },
                        ..old(self).mailbox
                    },
                    pending: old(self).answered(id),
                    sender_history: final(self).sender_history,
                    effects: final(self).effects,
                    ..*old(self)
                })
            }),
    {
        let ghost start = *self;
        let ghost shown = message.deep_view();
        let mut message = message;
        let id = message.header.id.clone();
        self.answer_pending(&account_id, &message);
        let ghost asks = start.answer_asks(account_id.0@, shown);
        message.header.is_read = true;
        self.mailbox.viewer.selected_id = Some(id);
        self.mailbox.viewer.selected = Some(message);
        let ghost before = *self;
        if self.sender_history_expanded {
            self.refresh_sender_history_for_displayed();
            proof {
                AviaryApp::lemma_asked(start, before, *self, asks, before.history_asks());
            }
        } else {
            self.sender_history = SenderHistoryState::Idle;
            assert(asks + Seq::<EffectView>::empty() =~= asks);
        }
    }

    /// Whether a pair names the given message.
    fn names(pair: &Option<(AccountId, String)>, account_id: &AccountId, id: &String) -> (same: bool)
        ensures
            same == (pair.deep_view() == Some((account_id.0@, id@))),
    {
        match pair {
            Some(pair) => pair.0 == *account_id && pair.1 == *id,
            None => false,
        }
    }

    /// Asks for the conversation of a message.
    fn ask_thread(&mut self, account_id: &AccountId, message: &Message)
        ensures
            final(self).asked(*old(self), thread_asks(account_id.0@, message.deep_view())),
            *final(self) == (AviaryApp { effects: final(self).effects, ..*old(self) }),
    {
        assert(self.effects.deep_view() =~= old(self).effects.deep_view() + Seq::<EffectView>::empty());
        if let Some(conversation_id) = &message.header.conversation_id {
            self.send(
                Effect::LoadThread { account_id: account_id.clone(), conversation_id: conversation_id.clone() },
            );
        }
    }

    /// Shows a message that is no draft in a tab or in the reading pane.
    fn open_mail(&mut self, account_id: AccountId, message: Message)
        ensures
            old(self).opened_mail(account_id.0@, message.deep_view(), *final(self)),
    {
        let ghost start = *self;
        let ghost shown = message.deep_view();
        let from_board = Self::names(&self.pending.kanban_open, &account_id, &message.header.id);
        self.update_header(&message.header.id, HeaderChange::Read { read: true });
        self.ask_thread(&account_id, &message);
        let ghost threaded = *self;
        let ghost first = thread_asks(account_id.0@, shown);
        assert(threaded.asked(start, first));
        if from_board {
            self.pending.kanban_open = None;
            self.send(Effect::OpenTab { message });
            proof {
                AviaryApp::lemma_asked(start, threaded, *self, first, seq![EffectView::OpenTab { message: shown }]);
            }
        } else {
            self.show_message(account_id, message);
            proof {
                let answers = threaded.answer_asks(account_id.0@, shown);
                let history = threaded.history_of_opened(self.mailbox.viewer).1;
                AviaryApp::lemma_asked(start, threaded, *self, first, answers + history);
                assert(first + (answers + history) =~= start.open_asks(account_id.0@, shown) + history);
            }
        }
    }

    /// What `on_message_opened` does.
    pub open spec fn message_opened_handled(self, after: AviaryApp, account_id: AccountId, message: Message) -> bool {
        self.opened(account_id.0@, message.deep_view(), after)
    }

    /// A message came from its provider.
    pub fn on_message_opened(&mut self, account_id: AccountId, message: Message)
        ensures
            old(self).message_opened_handled(*final(self), account_id, message),
    {
        let id = message.header.id.clone();
        if self.awaits_notification_open(&account_id, &id) {
            self.pending.notification_open = None;
        }
        assert(*self == old(self).notification_served(account_id.0@, id@));
        let explicitly_pending = Self::names(&self.pending.kanban_open, &account_id, &id) || is_text(
            &self.pending.reply_id,
            &id,
        ) || is_text(&self.pending.forward_id, &id);
        if !explicitly_pending && !is_text(&self.mailbox.viewer.selected_id, &id) {
            return;
        }
        if message.draft_id.is_some() {
            if Self::names(&self.kanban.preview, &account_id, &id) {
                self.kanban.preview = None;
            }
            self.send(Effect::OpenDraft { account_id, message });
            return;
        }
        self.open_mail(account_id, message);
    }

    /// What `on_cached_message_opened` does.
    pub open spec fn cached_message_opened_handled(self, after: AviaryApp, account_id: AccountId, message: Message) -> bool {
        if self.mailbox.viewer.selected_id.deep_view() != Some(message.header.id@) {
            after == self
        } else {
            let read = (HeaderChange::Read { read: true }).of_id(message.header.id@);
            &&& after.mailbox.messages.deep_view() == self.mailbox.messages.deep_view().map_values(
                read,
            )
            &&& after.mailbox.search.results.deep_view() == in_results(
                self.mailbox.search.results.deep_view(),
                read,
            )
            &&& after.mailbox.viewer.selected.deep_view() == Some(as_read(message.deep_view()))
            &&& after.asked(self, self.answer_asks(account_id.0@, message.deep_view()))
            &&& after == (AviaryApp {
                mailbox: MailboxState {
                    messages: after.mailbox.messages,
                    search: SearchState {
                        results: after.mailbox.search.results,
                        ..self.mailbox.search
                    },
                    viewer: ViewerState {
                        selected: after.mailbox.viewer.selected,
                        ..self.mailbox.viewer
                    },
                    ..self.mailbox
                },
                pending: self.answered(message.header.id@),
                sender_history: SenderHistoryState::Idle,
                effects: after.effects,
                ..self
            })
        }
    }

    /// A message came from the local copy.
    pub fn on_cached_message_opened(&mut self, account_id: AccountId, message: Message)
        ensures
            old(self).cached_message_opened_handled(*final(self), account_id, message),
    {
        if !is_text(&self.mailbox.viewer.selected_id, &message.header.id) {
            return;
        }
        self.answer_pending(&account_id, &message);
        let mut message = message;
        message.header.is_read = true;
        self.update_header(&message.header.id, HeaderChange::Read { read: true });
        self.mailbox.viewer.selected = Some(message);
        self.sender_history = SenderHistoryState::Idle;
    }

    /// What `on_sync_state_changed` does.
    pub open spec fn sync_state_changed_handled(self, after: AviaryApp, account_id: AccountId, online: bool, error: Option<String>) -> bool {
        let known = self.offline_accounts.deep_view().contains(account_id.0@);
        &&& after.offline_accounts.deep_view() == (if online {
            self.offline_accounts.deep_view().filter(other_account(account_id.0@))
        } else if known {
            self.offline_accounts.deep_view()
        } else {
            self.offline_accounts.deep_view().push(account_id.0@)
        })
        &&& after.asked(
            self,
            if !online && !known {
                seq![
                    passing(
                        ToastKind::Warning,
                        NoticeTextView::Offline {
                            key: "offline-local-copy"@,
                            reason: match error {
                                Some(error) => Some(ShortenedView { whole: error@ }),
                                None => None,
                            },
                        },
                    ),
                ]
            } else {
                Seq::empty()
            },
        )
        &&& after == (AviaryApp {
            offline_accounts: after.offline_accounts,
            effects: after.effects,
            ..self
        })
    }

    /// An account went offline or came back. Going offline is told once.
    pub fn on_sync_state_changed(&mut self, account_id: AccountId, online: bool, error: Option<String>)
        ensures
            old(self).sync_state_changed_handled(*final(self), account_id, online, error),
    {
        let ghost before = self.offline_accounts.deep_view();
        assert(self.effects.deep_view() =~= old(self).effects.deep_view() + Seq::<EffectView>::empty());
        if online {
            drop_account(&mut self.offline_accounts, &account_id);
        } else if !holds_account(&self.offline_accounts, &account_id) {
            self.offline_accounts.push(account_id);
            assert(self.offline_accounts.deep_view() =~= before.push(account_id.0@));
            let reason: Option<Shortened> = match error {
                Some(error) => Some(Shortened { whole: error }),
                None => None,
            };
            self.toast(ToastKind::Warning, NoticeText::Offline { key: "offline-local-copy", reason });
        }
    }

    /// The reading pane once the body of message `id` came.
    pub open spec fn viewer_filled(before: ViewerState, after: ViewerState, id: Seq<char>, message: MessageView) -> bool {
        &&& after.selected.deep_view() == (if before.selected_id.deep_view() == Some(id) {
            Some(as_read(message))
        } else {
            before.selected.deep_view()
        })
        &&& after.open_tabs.deep_view() == before.open_tabs.deep_view().map_values(tab_filled(id, message))
        &&& after.thread_bodies.deep_view() == entry_set(
            before.thread_bodies.deep_view(),
            id,
            ThreadBodyStateView::Loaded { message },
        )
        &&& after == (ViewerState {
            selected: after.selected,
            open_tabs: after.open_tabs,
            thread_bodies: after.thread_bodies,
            ..before
        })
    }

    /// Shows the body of message `id` wherever it is open.
    fn fill_viewer(viewer: &mut ViewerState, id: String, message: Message)
        ensures
            Self::viewer_filled(*old(viewer), *final(viewer), id@, message.deep_view()),
    {
        let ghost shown = message.deep_view();
        let mut read = message.clone();
        read.header.is_read = true;
        assert(read.deep_view() == as_read(shown));
        if is_text(&viewer.selected_id, &id) {
            viewer.selected = Some(read.clone());
        }
        let tabs = take_list(&mut viewer.open_tabs);
        viewer.open_tabs = map_each(
            tabs,
            |tab: ViewerTab| -> (filled: ViewerTab)
                ensures
                    filled.deep_view() == tab_filled(id@, shown)(tab.deep_view())
                {
                let shows = match &tab {
                    ViewerTab::Message { message: existing } => existing.header.id == id
                        && existing.header.account_id == message.header.account_id,
                    ViewerTab::Loading { reference } => reference.id == id && reference.account_id
                        == message.header.account_id,
                    ViewerTab::Compose { .. } => false,
                };
                if shows {
                    ViewerTab::Message { message: read.clone() }
                } else {
                    tab
                }
            },
            Ghost(tab_filled(id@, shown)),
        );
        set_entry(&mut viewer.thread_bodies, id, ThreadBodyState::Loaded { message });
    }

    /// What `on_thread_message_loaded` does.
    pub open spec fn thread_message_loaded_handled(self, after: AviaryApp, id: String, message: Message) -> bool {
        let read = (HeaderChange::Read { read: true }).of_id(id@);
        &&& after.mailbox.messages.deep_view() == self.mailbox.messages.deep_view().map_values(
            read,
        )
        &&& after.mailbox.search.results.deep_view() == in_results(
            self.mailbox.search.results.deep_view(),
            read,
        )
        &&& Self::viewer_filled(self.mailbox.viewer, after.mailbox.viewer, id@, message.deep_view())
        &&& after.asked(
            self,
            seq![EffectView::FinishRehydrate { reference: message.deep_view().header.reference() }],
        )
        &&& after == (AviaryApp {
            mailbox: MailboxState {
                messages: after.mailbox.messages,
                search: SearchState {
                    results: after.mailbox.search.results,
                    ..self.mailbox.search
                },
                viewer: after.mailbox.viewer,
                ..self.mailbox
            },
            effects: after.effects,
            ..self
        })
    }

    /// The body of a message came: of the selected one, of one in a tab, of an older one
    /// of the conversation, or of several of these.
    pub fn on_thread_message_loaded(&mut self, id: String, message: Message)
        ensures
            old(self).thread_message_loaded_handled(*final(self), id, message),
    {
        self.update_header(&id, HeaderChange::Read { read: true });
        self.send(Effect::FinishRehydrate { reference: message.header.reference() });
        Self::fill_viewer(&mut self.mailbox.viewer, id, message);
    }

    /// What `on_thread_message_error` does.
    pub open spec fn thread_message_error_handled(self, after: AviaryApp, id: String, error: String) -> bool {
        &&& after.mailbox.viewer.thread_bodies.deep_view() == entry_set(
            self.mailbox.viewer.thread_bodies.deep_view(),
            id@,
            ThreadBodyStateView::Error { error: error@ },
        )
        &&& after.asked(self, seq![EffectView::NotifyError { error: error@ }])
        &&& after == (AviaryApp {
            mailbox: MailboxState {
                viewer: ViewerState {
                    thread_bodies: after.mailbox.viewer.thread_bodies,
                    ..self.mailbox.viewer
                },
                ..self.mailbox
            },
            effects: after.effects,
            ..self
        })
    }

    /// The body of an older message of a conversation could not be had.
    pub fn on_thread_message_error(&mut self, id: String, error: String)
        ensures
            old(self).thread_message_error_handled(*final(self), id, error),
    {
        set_entry(&mut self.mailbox.viewer.thread_bodies, id, ThreadBodyState::Error { error: error.clone() });
        self.send(Effect::NotifyError { error });
    }

    /// Conversation of the selected message.
    pub open spec fn selected_conversation(self) -> Option<Seq<char>> {
        match self.mailbox.viewer.selected {
            Some(message) => message.deep_view().header.conversation_id,
            None => None,
        }
    }

    /// What `on_thread` does.
    pub open spec fn thread_handled(self, after: AviaryApp, conversation_id: String, messages: Vec<MessageHeader>) -> bool {
        if self.selected_conversation() == Some(conversation_id@) {
            &&& after.mailbox.viewer.thread_bodies.deep_view() == Seq::<(
                Seq<char>,
                ThreadBodyStateView,
            )>::empty()
            &&& after == (AviaryApp {
                mailbox: MailboxState {
                    viewer: ViewerState {
                        thread: Some((conversation_id, messages)),
                        thread_bodies: after.mailbox.viewer.thread_bodies,
                        ..self.mailbox.viewer
                    },
                    ..self.mailbox
                },
                ..self
            })
        } else {
            after == self
        }
    }

    /// The messages of a conversation came.
    pub fn on_thread(&mut self, conversation_id: String, messages: Vec<MessageHeader>)
        ensures
            old(self).thread_handled(*final(self), conversation_id, messages),
    {
        let relevant = match &self.mailbox.viewer.selected {
            Some(message) => is_text(&message.header.conversation_id, &conversation_id),
            None => false,
        };
        if relevant {
            self.mailbox.viewer.thread_bodies = Vec::new();
            assert(self.mailbox.viewer.thread_bodies.deep_view() =~= Seq::empty());
            self.mailbox.viewer.thread = Some((conversation_id, messages));
        }
    }

    /// Puts the results in the order that was chosen. By relevance they stay as they
    /// came: the ranks of different sources do not compare.
    pub fn sort_search_results(&mut self)
        ensures
            final(self).mailbox.search.results.deep_view() == match old(
                self,
            ).mailbox.search.results.deep_view() {
                Some(results) => Some(in_order(results, old(self).mailbox.search.sort)),
                None => None,
            },
            *final(self) == (AviaryApp {
                mailbox: MailboxState {
                    search: SearchState {
                        results: final(self).mailbox.search.results,
                        ..old(self).mailbox.search
                    },
                    ..old(self).mailbox
                },
                ..*old(self)
            }),
    {
        match self.mailbox.search.sort {
            MailSearchSort::Relevance => {},
            MailSearchSort::Date => {
                if let Some(results) = &mut self.mailbox.search.results {
                    let taken = take_list(results);
                    *results = sort_newest(taken);
                }
            },
        }
    }

    /// What `on_search_results` does.
    pub open spec fn search_results_handled(self, after: AviaryApp, account_id: AccountId, query: String, messages: Vec<MessageHeader>) -> bool {
        if !self.relevant(account_id.0@) || query@ != self.mailbox.search.query@ {
            after == self
        } else {
            &&& after.mailbox.search.results.deep_view() == Some(
                in_order(
                    appended(
                        match self.mailbox.search.results.deep_view() {
                            Some(results) => results,
                            None => Seq::empty(),
                        },
                        messages.deep_view(),
                    ),
                    self.mailbox.search.sort,
                ),
            )
            &&& after == (AviaryApp {
                mailbox: MailboxState {
                    search: SearchState {
                        results: after.mailbox.search.results,
                        ..self.mailbox.search
                    },
                    ..self.mailbox
                },
                ..self
            })
        }
    }

    /// Results of the search came from one account.
    pub fn on_search_results(&mut self, account_id: AccountId, query: String, messages: Vec<MessageHeader>)
        ensures
            old(self).search_results_handled(*final(self), account_id, query, messages),
    {
        if !self.event_relevant(&account_id) || query != self.mailbox.search.query {
            return;
        }
        let current: Vec<MessageHeader> = match self.mailbox.search.results.take() {
            Some(results) => results,
            None => Vec::new(),
        };
        assert(old(self).mailbox.search.results is None ==> current.deep_view() =~= Seq::empty());
        self.mailbox.search.results = Some(dedup_append(current, messages));
        self.sort_search_results();
    }

    /// What `on_message_action_noted` does.
    pub open spec fn message_action_noted_handled(self, after: AviaryApp, id: String, action: LastAction, at: i128) -> bool {
        let change = (HeaderChange::Action { action, at }).of_id(id@);
        &&& after.mailbox.messages.deep_view() == self.mailbox.messages.deep_view().map_values(
            change,
        )
        &&& after.mailbox.search.results.deep_view() == in_results(
            self.mailbox.search.results.deep_view(),
            change,
        )
        &&& after.mailbox.viewer.open_tabs.deep_view() == self.mailbox.viewer.open_tabs.deep_view().map_values(in_tab(with_action(id@, action, at)))
        &&& after == (AviaryApp {
            mailbox: MailboxState {
                messages: after.mailbox.messages,
                search: SearchState {
                    results: after.mailbox.search.results,
                    ..self.mailbox.search
                },
                viewer: ViewerState {
                    open_tabs: after.mailbox.viewer.open_tabs,
                    ..self.mailbox.viewer
                },
                ..self.mailbox
            },
            ..self
        })
    }

    /// The provider noted that a message was answered or forwarded.
    pub fn on_message_action_noted(&mut self, id: String, action: LastAction, at: i128)
        ensures
            old(self).message_action_noted_handled(*final(self), id, action, at),
    {
        self.update_header(&id, HeaderChange::Action { action, at });
        map_tabs(
            &mut self.mailbox.viewer.open_tabs,
            |message: Message| -> (noted: Message)
                ensures
                    noted.deep_view() == with_action(id@, action, at)(message.deep_view())
                {
                let mut message = message;
                if message.header.id == id {
                    message.header.last_action = Some(action);
                    message.header.last_action_at = Some(at);
                }
                message
            },
            Ghost(with_action(id@, action, at)),
        );
    }
}

} // verus!
