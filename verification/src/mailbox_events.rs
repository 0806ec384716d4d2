//! Pages of the list that come from providers and from the local copy.
use crate::app::{drop_account_headers, of_other_account, same_text, told};
use crate::headers::{
    appended, change_id, change_message, dedup_append, drop_id, newest_first, newest_then_name, other_message_id,
    place_header, placed, preserve_last_action, replace_header, replaced, sort_newest, sort_newest_then_name,
    with_known_action, HeaderChange,
};
use crate::lists::{map_each, retain_where, stable_sort, take_list};
use crate::model::{AccountId, MessageHeader, MessageHeaderView, MessageRef, MessageRefView};
use crate::reading::{in_selected, map_selected};
use crate::state::{
    AviaryApp, Effect, EffectView, FoldState, MailboxState, Message, MessageView, PaginationState, SearchState,
    ToastKind, ViewerState,
};
use vstd::prelude::*;

verus! {

/// The list after a page of one account came: the other accounts' messages and the page,
/// the newest first.
pub open spec fn relisted(
    before: Seq<MessageHeaderView>,
    account_id: Seq<char>,
    page: Seq<MessageHeaderView>,
) -> Seq<MessageHeaderView> {
    stable_sort(
        before.filter(of_other_account(account_id)) + page.map_values(with_known_action(before)),
        newest_first(),
    )
}

/// Whether a count belongs to another account than `id`.
pub open spec fn total_of_other(id: Seq<char>) -> spec_fn(((Seq<char>, Seq<char>), usize)) -> bool {
    |entry: ((Seq<char>, Seq<char>), usize)| (entry.0).0 != id
}

/// A count of a conversation, for the given account.
pub open spec fn total_for(id: Seq<char>) -> spec_fn((Seq<char>, usize)) -> ((Seq<char>, Seq<char>), usize) {
    |entry: (Seq<char>, usize)| ((id, entry.0), entry.1)
}

/// The results after `f`, where there are results.
pub open spec fn in_results(
    results: Option<Seq<MessageHeaderView>>,
    f: spec_fn(MessageHeaderView) -> MessageHeaderView,
) -> Option<Seq<MessageHeaderView>> {
    match results {
        Some(headers) => Some(headers.map_values(f)),
        None => None,
    }
}

/// A message with the given header, if it is the given message.
pub open spec fn with_header(reference: MessageRefView, header: MessageHeaderView) -> spec_fn(MessageView) -> MessageView {
    |message: MessageView|
        if message.header.reference() == reference {
            MessageView { header, ..message }
        } else {
            message
        }
}

/// The results without a message, where there are results.
pub open spec fn results_without(results: Option<Seq<MessageHeaderView>>, id: Seq<char>) -> Option<
    Seq<MessageHeaderView>,
> {
    match results {
        Some(headers) => Some(headers.filter(other_message_id(id))),
        None => None,
    }
}

impl AviaryApp {
    /// The list and the results after a change of message `id`; nothing else changes.
    pub open spec fn header_changed(self, after: AviaryApp, id: Seq<char>, change: HeaderChange) -> bool {
        &&& after.mailbox.messages.deep_view() == self.mailbox.messages.deep_view().map_values(change.of_id(id))
        &&& after.mailbox.search.results.deep_view() == in_results(
            self.mailbox.search.results.deep_view(),
            change.of_id(id),
        )
        &&& after == (AviaryApp {
            mailbox: MailboxState {
                messages: after.mailbox.messages,
                search: SearchState { results: after.mailbox.search.results, ..self.mailbox.search },
                ..self.mailbox
            },
            ..self
        })
    }

    /// Changes the headers of message `id` in the list and the results.
    pub fn update_header(&mut self, id: &String, change: HeaderChange)
        ensures
            old(self).header_changed(*final(self), id@, change),
    {
        change_id(&mut self.mailbox.messages, id, change);
        if let Some(results) = &mut self.mailbox.search.results {
            change_id(results, id, change);
        }
    }

    /// Changes the headers of a message in the list and the results.
    pub fn update_header_for(&mut self, reference: &MessageRef, change: HeaderChange)
        ensures
            final(self).mailbox.messages.deep_view() == old(self).mailbox.messages.deep_view().map_values(
                change.of_message(reference.deep_view()),
            ),
            final(self).mailbox.search.results.deep_view() == in_results(
                old(self).mailbox.search.results.deep_view(),
                change.of_message(reference.deep_view()),
            ),
            *final(self) == (AviaryApp {
                mailbox: MailboxState {
                    messages: final(self).mailbox.messages,
                    search: SearchState {
                        results: final(self).mailbox.search.results,
                        ..old(self).mailbox.search
                    },
                    ..old(self).mailbox
                },
                ..*old(self)
            }),
    {
        change_message(&mut self.mailbox.messages, reference, change);
        if let Some(results) = &mut self.mailbox.search.results {
            change_message(results, reference, change);
        }
    }

    /// Drops a message from the list and the results, and lets the other views forget it.
    pub fn remove_message_everywhere(&mut self, id: &String)
        ensures
            final(self).mailbox.messages.deep_view() == old(self).mailbox.messages.deep_view().filter(
                other_message_id(id@),
            ),
            final(self).mailbox.search.results.deep_view() == results_without(
                old(self).mailbox.search.results.deep_view(),
                id@,
            ),
            final(self).asked(*old(self), seq![EffectView::ForgetMessage { id: id@ }]),
            *final(self) == (AviaryApp {
                mailbox: MailboxState {
                    messages: final(self).mailbox.messages,
                    search: SearchState {
                        results: final(self).mailbox.search.results,
                        ..old(self).mailbox.search
                    },
                    ..old(self).mailbox
                },
                effects: final(self).effects,
                ..*old(self)
            }),
    {
        drop_id(&mut self.mailbox.messages, id);
        if let Some(results) = &mut self.mailbox.search.results {
            drop_id(results, id);
        }
        self.send(Effect::ForgetMessage { id: id.clone() });
    }

    /// A header that came back: it stands in the list, in the results and in the reading
    /// pane where its message stood; nothing else changes but what is asked for.
    pub open spec fn header_restored(self, account_id: Seq<char>, header: MessageHeaderView, after: AviaryApp) -> bool {
        let reference = MessageRefView { account_id, id: header.id };
        &&& after.mailbox.messages.deep_view() == stable_sort(
            placed(self.mailbox.messages.deep_view(), reference, header),
            newest_first(),
        )
        &&& after.mailbox.search.results.deep_view() == match self.mailbox.search.results.deep_view() {
            Some(results) => Some(replaced(results, reference, header)),
            None => None,
        }
        &&& after.mailbox.viewer.selected.deep_view() == in_selected(
            self.mailbox.viewer.selected.deep_view(),
            with_header(reference, header),
        )
        &&& after == (AviaryApp {
            mailbox: MailboxState {
                messages: after.mailbox.messages,
                search: SearchState { results: after.mailbox.search.results, ..self.mailbox.search },
                viewer: ViewerState { selected: after.mailbox.viewer.selected, ..self.mailbox.viewer },
                ..self.mailbox
            },
            effects: after.effects,
            message_list_revision: self.next_revision(),
            ..self
        })
    }

    /// Restores the header that the provider confirmed last, after a change was refused
    /// for good.
    pub fn restore_confirmed_header(&mut self, account_id: AccountId, header: MessageHeader)
        ensures
            if !old(self).relevant(account_id.0@) {
                *final(self) == *old(self)
            } else {
                &&& old(self).header_restored(account_id.0@, header.deep_view(), *final(self))
                &&& final(self).asked(*old(self), seq![EffectView::UpdateTrayUnread])
            },
    {
        if !self.event_relevant(&account_id) {
            return;
        }
        place_header(&mut self.mailbox.messages, &account_id, header.clone());
        if let Some(results) = &mut self.mailbox.search.results {
            replace_header(results, &account_id, header.clone());
        }
        map_selected(
            &mut self.mailbox.viewer.selected,
            |message: Message| -> (updated: Message)
                ensures
                    updated.deep_view() == with_header(
                        MessageRefView { account_id: account_id.0@, id: header.id@ },
                        header.deep_view(),
                    )(message.deep_view())
                {
                let mut message = message;
                if message.header.account_id == account_id && message.header.id == header.id {
                    message.header = header.clone();
                }
                message
            },
            Ghost(with_header(MessageRefView { account_id: account_id.0@, id: header.id@ }, header.deep_view())),
        );
        let taken = take_list(&mut self.mailbox.messages);
        self.mailbox.messages = sort_newest(taken);
        self.send(Effect::UpdateTrayUnread);
        self.invalidate_message_list();
    }

    /// Puts a page of an account in the place of what the list held of it.
    fn relist(&mut self, account_id: &AccountId, messages: Vec<MessageHeader>)
        ensures
            final(self).mailbox.messages.deep_view() == relisted(
                old(self).mailbox.messages.deep_view(),
                account_id.0@,
                messages.deep_view(),
            ),
            *final(self) == (AviaryApp {
                mailbox: MailboxState { messages: final(self).mailbox.messages, ..old(self).mailbox },
                ..*old(self)
            }),
    {
        let ghost before = self.mailbox.messages.deep_view();
        let mut page = preserve_last_action(&self.mailbox.messages, messages);
        let ghost kept = page.deep_view();
        drop_account_headers(&mut self.mailbox.messages, account_id);
        let mut all = take_list(&mut self.mailbox.messages);
        let ghost others = all.deep_view();
        all.append(&mut page);
        assert(all.deep_view() =~= others + kept);
        self.mailbox.messages = sort_newest(all);
    }

    /// What is asked for when the list was refreshed.
    pub open spec fn refreshed_asks(self) -> Seq<EffectView> {
        if self.mailbox.refresh_pending {
            seq![told(ToastKind::Success, "toast-inbox-updated"@), EffectView::UpdateTrayUnread]
        } else {
            seq![EffectView::UpdateTrayUnread]
        }
    }

    /// Tells that a refresh that was asked for is done.
    fn finish_refresh(&mut self)
        ensures
            final(self).asked(*old(self), old(self).refreshed_asks()),
            *final(self) == (AviaryApp {
                mailbox: MailboxState { refresh_pending: false, ..old(self).mailbox },
                effects: final(self).effects,
                ..*old(self)
            }),
    {
        let ghost start = *self;
        if self.mailbox.refresh_pending {
            self.mailbox.refresh_pending = false;
            self.tell(ToastKind::Success, "toast-inbox-updated");
            let ghost middle = *self;
            self.send(Effect::UpdateTrayUnread);
            proof {
                AviaryApp::lemma_asked(
                    start,
                    middle,
                    *self,
                    seq![told(ToastKind::Success, "toast-inbox-updated"@)],
                    seq![EffectView::UpdateTrayUnread],
                );
                assert(seq![told(ToastKind::Success, "toast-inbox-updated"@)] + seq![EffectView::UpdateTrayUnread]
                    =~= start.refreshed_asks());
            }
        } else {
            self.send(Effect::UpdateTrayUnread);
        }
    }

    /// What `on_messages` does.
    pub open spec fn messages_handled(self, after: AviaryApp, account_id: AccountId, messages: Vec<MessageHeader>) -> bool {
        if self.unified_pagination() || !self.relevant(account_id.0@) {
            after == self
        } else {
            &&& after.mailbox.messages.deep_view() == relisted(
                self.mailbox.messages.deep_view(),
                account_id.0@,
                messages.deep_view(),
            )
            &&& after.asked(self, self.refreshed_asks())
            &&& after == (AviaryApp {
                mailbox: MailboxState {
                    messages: after.mailbox.messages,
                    messages_loaded: true,
                    refresh_pending: false,
                    pagination: PaginationState {
                        has_more: self.paginates(account_id.0@) && messages.len() >= self.limit_of(
                            account_id.0@,
                        ),
                        loading_more: false,
                        last_request_len: None,
                        ..self.mailbox.pagination
                    },
                    ..self.mailbox
                },
                effects: after.effects,
                ..self
            })
        }
    }

    /// A page of an account came from its provider.
    pub fn on_messages(&mut self, account_id: AccountId, messages: Vec<MessageHeader>)
        ensures
            old(self).messages_handled(*final(self), account_id, messages),
    {
        if self.uses_unified_pagination() || !self.event_relevant(&account_id) {
            return;
        }
        let limit: usize = self.fetch_limit(&account_id);
        let has_more = messages.len() >= limit && self.can_paginate_account(&account_id);
        self.relist(&account_id, messages);
        self.mailbox.pagination.loading_more = false;
        self.mailbox.pagination.last_request_len = None;
        self.mailbox.messages_loaded = true;
        self.mailbox.pagination.has_more = has_more;
        self.finish_refresh();
    }

    /// What `on_conversation_totals` does.
    pub open spec fn conversation_totals_handled(self, after: AviaryApp, account_id: AccountId, folder_id: Option<String>, totals: Vec<(String, usize)>) -> bool {
        if self.mailbox.selected_folder_id.deep_view() != folder_id.deep_view() {
            after == self
        } else {
            &&& after.mailbox.folds.conversation_totals.deep_view() == self.mailbox.folds.conversation_totals.deep_view().filter(total_of_other(account_id.0@))
                + totals.deep_view().map_values(total_for(account_id.0@))
            &&& after == (AviaryApp {
                mailbox: MailboxState {
                    folds: FoldState {
                        conversation_totals: after.mailbox.folds.conversation_totals,
                        ..self.mailbox.folds
                    },
                    ..self.mailbox
                },
                ..self
            })
        }
    }

    /// Counts of an account's conversations came: they replace those that were there.
    pub fn on_conversation_totals(
        &mut self,
        account_id: AccountId,
        folder_id: Option<String>,
        totals: Vec<(String, usize)>,
    )
        ensures
            old(self).conversation_totals_handled(*final(self), account_id, folder_id, totals),
    {
        if !same_text(&self.mailbox.selected_folder_id, &folder_id) {
            return;
        }
        let taken = take_list(&mut self.mailbox.folds.conversation_totals);
        let mut all = retain_where(
            taken,
            |entry: &((AccountId, String), usize)| -> (keep: bool)
                ensures
                    keep == total_of_other(account_id.0@)(entry.deep_view())
                { (entry.0).0 != account_id },
            Ghost(total_of_other(account_id.0@)),
        );
        let mut added = map_each(
            totals,
            |entry: (String, usize)| -> (total: ((AccountId, String), usize))
                ensures
                    total.deep_view() == total_for(account_id.0@)(entry.deep_view())
                { ((account_id.clone(), entry.0), entry.1) },
            Ghost(total_for(account_id.0@)),
        );
        let ghost front = all.deep_view();
        let ghost back = added.deep_view();
        all.append(&mut added);
        assert(all.deep_view() =~= front + back);
        self.mailbox.folds.conversation_totals = all;
    }

    /// What `on_cached_messages` does.
    pub open spec fn cached_messages_handled(self, after: AviaryApp, account_id: AccountId, folder_id: Option<String>, messages: Vec<MessageHeader>) -> bool {
        if self.unified_pagination() || !self.relevant(account_id.0@)
            || self.mailbox.selected_folder_id.deep_view() != folder_id.deep_view() {
            after == self
        } else {
            &&& after.mailbox.messages.deep_view() == relisted(
                self.mailbox.messages.deep_view(),
                account_id.0@,
                messages.deep_view(),
            )
            &&& after.asked(self, seq![EffectView::UpdateTrayUnread])
            &&& after == (AviaryApp {
                mailbox: MailboxState {
                    messages: after.mailbox.messages,
                    messages_loaded: true,
                    pagination: PaginationState {
                        has_more: self.paginates(account_id.0@) && messages.len() >= self.limit_of(
                            account_id.0@,
                        ),
                        ..self.mailbox.pagination
                    },
                    ..self.mailbox
                },
                effects: after.effects,
                ..self
            })
        }
    }

    /// A page of an account came from the local copy.
    pub fn on_cached_messages(
        &mut self,
        account_id: AccountId,
        folder_id: Option<String>,
        messages: Vec<MessageHeader>,
    )
        ensures
            old(self).cached_messages_handled(*final(self), account_id, folder_id, messages),
    {
        if self.uses_unified_pagination() || !self.event_relevant(&account_id) || !same_text(
            &self.mailbox.selected_folder_id,
            &folder_id,
        ) {
            return;
        }
        let limit: usize = self.fetch_limit(&account_id);
        let has_more = messages.len() >= limit && self.can_paginate_account(&account_id);
        self.relist(&account_id, messages);
        self.mailbox.messages_loaded = true;
        self.mailbox.pagination.has_more = has_more;
        self.send(Effect::UpdateTrayUnread);
    }

    /// What `on_more_messages` does.
    pub open spec fn more_messages_handled(self, after: AviaryApp, account_id: AccountId, messages: Vec<MessageHeader>, has_more: bool) -> bool {
        if !self.relevant(account_id.0@) || !self.paginates(account_id.0@) {
            after == self
        } else {
            &&& after.mailbox.messages.deep_view() == appended(
                self.mailbox.messages.deep_view(),
                messages.deep_view(),
            )
            &&& after == (AviaryApp {
                mailbox: MailboxState {
                    messages: after.mailbox.messages,
                    pagination: PaginationState {
                        has_more,
                        loading_more: false,
                        ..self.mailbox.pagination
                    },
                    ..self.mailbox
                },
                ..self
            })
        }
    }

    /// A further page of the only account on display came.
    pub fn on_more_messages(&mut self, account_id: AccountId, messages: Vec<MessageHeader>, has_more: bool)
        ensures
            old(self).more_messages_handled(*final(self), account_id, messages, has_more),
    {
        if !self.event_relevant(&account_id) || !self.can_paginate_account(&account_id) {
            return;
        }
        let taken = take_list(&mut self.mailbox.messages);
        self.mailbox.messages = dedup_append(taken, messages);
        self.mailbox.pagination.has_more = has_more;
        self.mailbox.pagination.loading_more = false;
    }

    /// Whether an answer is the one that the list of several accounts waits for.
    pub open spec fn awaits_unified(self, request_id: u64) -> bool {
        self.unified_pagination() && request_id == self.mailbox.pagination.unified_request_id
    }

    /// What `on_unified_messages` does.
    pub open spec fn unified_messages_handled(self, after: AviaryApp, request_id: u64, messages: Vec<MessageHeader>, has_more: bool) -> bool {
        if !self.awaits_unified(request_id) {
            after == self
        } else {
            &&& after.mailbox.messages.deep_view() == messages.deep_view().map_values(
                with_known_action(self.mailbox.messages.deep_view()),
            )
            &&& after.asked(self, self.refreshed_asks())
            &&& after == (AviaryApp {
                mailbox: MailboxState {
                    messages: after.mailbox.messages,
                    messages_loaded: true,
                    refresh_pending: false,
                    pagination: PaginationState {
                        has_more,
                        loading_more: false,
                        last_request_len: None,
                        ..self.mailbox.pagination
                    },
                    ..self.mailbox
                },
                effects: after.effects,
                ..self
            })
        }
    }

    /// A page of several accounts came from their providers.
    pub fn on_unified_messages(&mut self, request_id: u64, messages: Vec<MessageHeader>, has_more: bool)
        ensures
            old(self).unified_messages_handled(*final(self), request_id, messages, has_more),
    {
        if !self.uses_unified_pagination() || request_id != self.mailbox.pagination.unified_request_id {
            return;
        }
        self.mailbox.messages = preserve_last_action(&self.mailbox.messages, messages);
        self.mailbox.messages_loaded = true;
        self.mailbox.pagination.has_more = has_more;
        self.mailbox.pagination.loading_more = false;
        self.mailbox.pagination.last_request_len = None;
        self.finish_refresh();
    }

    /// What `on_unified_cached_messages` does.
    pub open spec fn unified_cached_messages_handled(self, after: AviaryApp, request_id: u64, messages: Vec<MessageHeader>) -> bool {
        if !self.awaits_unified(request_id) {
            after == self
        } else {
            &&& after.mailbox.messages.deep_view() == messages.deep_view().map_values(
                with_known_action(self.mailbox.messages.deep_view()),
            )
            &&& after.asked(self, seq![EffectView::UpdateTrayUnread])
            &&& after == (AviaryApp {
                mailbox: MailboxState {
                    messages: after.mailbox.messages,
                    messages_loaded: true,
                    pagination: PaginationState { has_more: false, ..self.mailbox.pagination },
                    ..self.mailbox
                },
                effects: after.effects,
                ..self
            })
        }
    }

    /// A page of several accounts came from the local copy.
    pub fn on_unified_cached_messages(&mut self, request_id: u64, messages: Vec<MessageHeader>)
        ensures
            old(self).unified_cached_messages_handled(*final(self), request_id, messages),
    {
        if !self.uses_unified_pagination() || request_id != self.mailbox.pagination.unified_request_id {
            return;
        }
        self.mailbox.messages = preserve_last_action(&self.mailbox.messages, messages);
        self.mailbox.messages_loaded = true;
        self.mailbox.pagination.has_more = false;
        self.send(Effect::UpdateTrayUnread);
    }

    /// What `on_unified_more_messages` does.
    pub open spec fn unified_more_messages_handled(self, after: AviaryApp, request_id: u64, messages: Vec<MessageHeader>, has_more: bool) -> bool {
        if !self.awaits_unified(request_id) {
            after == self
        } else {
            &&& after.mailbox.messages.deep_view() == stable_sort(
                appended(self.mailbox.messages.deep_view(), messages.deep_view()),
                newest_then_name(),
            )
            &&& after == (AviaryApp {
                mailbox: MailboxState {
                    messages: after.mailbox.messages,
                    pagination: PaginationState {
                        has_more,
                        loading_more: false,
                        ..self.mailbox.pagination
                    },
                    ..self.mailbox
                },
                ..self
            })
        }
    }

    /// A further page of several accounts came.
    pub fn on_unified_more_messages(&mut self, request_id: u64, messages: Vec<MessageHeader>, has_more: bool)
        ensures
            old(self).unified_more_messages_handled(*final(self), request_id, messages, has_more),
    {
        if !self.uses_unified_pagination() || request_id != self.mailbox.pagination.unified_request_id {
            return;
        }
        let taken = take_list(&mut self.mailbox.messages);
        self.mailbox.messages = sort_newest_then_name(dedup_append(taken, messages));
        self.mailbox.pagination.has_more = has_more;
        self.mailbox.pagination.loading_more = false;
    }
}

} // verus!
