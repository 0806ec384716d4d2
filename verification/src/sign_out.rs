//! An account that signs out: everything of it goes.
use crate::app::{
    account_named, drop_account, drop_account_headers, holds_account, is_account, is_text, of_other_account,
    other_account,
};
use crate::lists::{any_where, map_each, retain_where, take_list};
use crate::model::{Account, AccountId, AccountView, MessageHeader, MessageHeaderView};
use crate::settings::GlobalSettings;
use crate::state::{
    AuthState, AviaryApp, ComposeHandle, ComposeHandleView, Effect, EffectView, MailboxState, MainView, SearchState,
    SenderHistoryState, SentMessage, SentMessageView, SentState, ThreadBodyStateView, ViewerState, ViewerTab,
    ViewerTabView,
};
use vstd::prelude::*;

verus! {

/// Whether a header is that of message `id` of an account.
pub open spec fn header_of(account_id: Seq<char>, id: Seq<char>) -> spec_fn(MessageHeaderView) -> bool {
    |header: MessageHeaderView| header.id == id && header.account_id == account_id
}

/// Whether a composer writes from an account.
pub open spec fn writes_from(account_id: Seq<char>) -> spec_fn(ComposeHandleView) -> bool {
    |handle: ComposeHandleView| handle.account_ids.contains(account_id)
}

/// Whether a composer writes from other accounts only.
pub open spec fn writes_elsewhere(account_id: Seq<char>) -> spec_fn(ComposeHandleView) -> bool {
    |handle: ComposeHandleView| !handle.account_ids.contains(account_id)
}

/// The composers that write from an account.
pub open spec fn composes_of(handles: Seq<ComposeHandleView>, account_id: Seq<char>) -> Seq<u64> {
    handles.filter(writes_from(account_id)).map_values(|handle: ComposeHandleView| handle.id)
}

/// Whether a tab stays when an account and the composers `gone` go.
pub open spec fn tab_stays(account_id: Seq<char>, gone: Seq<u64>) -> spec_fn(ViewerTabView) -> bool {
    |tab: ViewerTabView|
        match tab {
            ViewerTabView::Message { message } => message.header.account_id != account_id,
            ViewerTabView::Loading { reference } => reference.account_id != account_id,
            ViewerTabView::Compose { compose_id } => !gone.contains(compose_id),
        }
}

/// Whether a reply or forward was not sent from an account.
pub open spec fn sent_elsewhere(account_id: Seq<char>) -> spec_fn(SentMessageView) -> bool {
    |sent: SentMessageView| sent.message.header.account_id != account_id
}

/// The replies and forwards to a message without those of an account.
pub open spec fn sent_without(account_id: Seq<char>) -> spec_fn((Seq<char>, Seq<SentMessageView>)) -> (
    Seq<char>,
    Seq<SentMessageView>,
) {
    |entry: (Seq<char>, Seq<SentMessageView>)| (entry.0, entry.1.filter(sent_elsewhere(account_id)))
}

/// Whether there are replies or forwards to a message.
pub open spec fn has_sent() -> spec_fn((Seq<char>, Seq<SentMessageView>)) -> bool {
    |entry: (Seq<char>, Seq<SentMessageView>)| entry.1.len() > 0
}

/// Whether one of the replies and forwards has the given id.
pub open spec fn sent_has(entries: Seq<(Seq<char>, Seq<SentMessageView>)>, id: Seq<char>) -> bool {
    exists|i: int, j: int|
        0 <= i < entries.len() && 0 <= j < entries[i].1.len() && #[trigger] entries[i].1[j].message.header.id == id
}

/// Whether one of the replies and forwards has the given id, as a test on ids.
pub open spec fn is_sent(entries: Seq<(Seq<char>, Seq<SentMessageView>)>) -> spec_fn(Seq<char>) -> bool {
    |id: Seq<char>| sent_has(entries, id)
}

/// Whether a configured account is another one.
pub open spec fn account_other(id: Seq<char>) -> spec_fn(AccountView) -> bool {
    |account: AccountView| account.id != id
}

/// The id of the first account.
pub open spec fn first_account(accounts: Seq<AccountView>) -> Option<Seq<char>> {
    if accounts.len() > 0 {
        Some(accounts[0].id)
    } else {
        None
    }
}

/// Nothing but the default account differs.
#[verifier::opaque]
pub open spec fn same_but_default(before: GlobalSettings, after: GlobalSettings) -> bool {
    after == (GlobalSettings { default_account_id: after.default_account_id, ..before })
}

proof fn lemma_same_default(global: GlobalSettings)
    ensures
        same_but_default(global, global),
{
    reveal(same_but_default);
}

/// Changes the default account.
fn set_default(global: &mut GlobalSettings, id: Option<String>)
    ensures
        final(global).default_account_id == id,
        same_but_default(*old(global), *final(global)),
{
    reveal(same_but_default);
    global.default_account_id = id;
}

/// The ids of the composers that write from an account.
fn composes_from(handles: &Vec<ComposeHandle>, account_id: &AccountId) -> (ids: Vec<u64>)
    ensures
        ids@ == composes_of(handles.deep_view(), account_id.0@),
{
    let ghost all = handles.deep_view();
    let ghost test = writes_from(account_id.0@);
    let ghost id_of = |handle: ComposeHandleView| handle.id;
    let mut ids: Vec<u64> = Vec::new();
    let mut i: usize = 0;
    proof {
        reveal(Seq::filter);
        assert(ids@ =~= all.take(0).filter(test).map_values(id_of));
    }
    while i < handles.len()
        invariant
            i <= handles.len(),
            all == handles.deep_view(),
            test == writes_from(account_id.0@),
            id_of == (|handle: ComposeHandleView| handle.id),
            ids@ == all.take(i as int).filter(test).map_values(id_of),
        decreases handles.len() - i,
    {
        proof {
            reveal(Seq::filter);
            assert(all[i as int] == handles[i as int].deep_view());
            assert(all.take(i + 1).drop_last() =~= all.take(i as int));
            let front = all.take(i as int).filter(test);
            assert(front.push(all[i as int]).map_values(id_of) =~= front.map_values(id_of).push(
                id_of(all[i as int]),
            ));
        }
        if holds_account(&handles[i].account_ids, account_id) {
            ids.push(handles[i].id);
        }
        i += 1;
    }
    assert(all.take(all.len() as int) =~= all);
    ids
}

/// Whether `ids` holds `id`.
fn holds_id(ids: &Vec<u64>, id: u64) -> (found: bool)
    ensures
        found == ids@.contains(id),
{
    let mut i: usize = 0;
    while i < ids.len()
        invariant
            i <= ids.len(),
            forall|j: int| 0 <= j < i ==> ids@[j] != id,
        decreases ids.len() - i,
    {
        if ids[i] == id {
            assert(ids@[i as int] == id);
            return true;
        }
        i += 1;
    }
    false
}

/// Whether one of the replies and forwards has the given id.
fn holds_sent(entries: &Vec<(String, Vec<SentMessage>)>, id: &String) -> (found: bool)
    ensures
        found == sent_has(entries.deep_view(), id@),
{
    let ghost all = entries.deep_view();
    let mut i: usize = 0;
    while i < entries.len()
        invariant
            i <= entries.len(),
            all == entries.deep_view(),
            forall|k: int, m: int|
                0 <= k < i && 0 <= m < all[k].1.len() ==> #[trigger] all[k].1[m].message.header.id != id@,
        decreases entries.len() - i,
    {
        let sent = &entries[i].1;
        assert(all[i as int].1 == sent.deep_view());
        let mut j: usize = 0;
        while j < sent.len()
            invariant
                i < entries.len(),
                all == entries.deep_view(),
                all[i as int].1 == sent.deep_view(),
                j <= sent.len(),
                forall|m: int| 0 <= m < j ==> #[trigger] all[i as int].1[m].message.header.id != id@,
            decreases sent.len() - j,
        {
            assert(all[i as int].1[j as int] == sent[j as int].deep_view());
            if sent[j].message.header.id == *id {
                assert(all[i as int].1[j as int].message.header.id == id@);
                return true;
            }
            j += 1;
        }
        i += 1;
    }
    false
}

impl AviaryApp {
    /// Whether the selected message is one of an account.
    pub open spec fn selection_of(self, account_id: Seq<char>) -> bool {
        ||| match self.mailbox.viewer.selected {
            Some(message) => message.deep_view().header.account_id == account_id,
            None => false,
        }
        ||| match self.mailbox.viewer.selected_id {
            Some(id) => {
                ||| self.mailbox.messages.deep_view().any(header_of(account_id, id@))
                ||| match self.mailbox.search.results.deep_view() {
                    Some(results) => results.any(header_of(account_id, id@)),
                    None => false,
                }
            },
            None => false,
        }
    }

    fn holds_header(headers: &Vec<MessageHeader>, account_id: &AccountId, id: &String) -> (found: bool)
        ensures
            found == headers.deep_view().any(header_of(account_id.0@, id@)),
    {
        any_where(
            headers,
            |header: &MessageHeader| -> (same: bool)
                ensures
                    same == header_of(account_id.0@, id@)(header.deep_view())
                { header.id == *id && header.account_id == *account_id },
            Ghost(header_of(account_id.0@, id@)),
        )
    }

    fn selection_belongs(&self, account_id: &AccountId) -> (yes: bool)
        ensures
            yes == self.selection_of(account_id.0@),
    {
        let shown = match &self.mailbox.viewer.selected {
            Some(message) => message.header.account_id == *account_id,
            None => false,
        };
        if shown {
            return true;
        }
        match &self.mailbox.viewer.selected_id {
            Some(id) => Self::holds_header(&self.mailbox.messages, account_id, id)
                || match &self.mailbox.search.results {
                Some(results) => Self::holds_header(results, account_id, id),
                None => false,
            },
            None => false,
        }
    }

    /// The reading pane after an account and the composers `gone` went.
    pub open spec fn viewer_left(before: ViewerState, after: ViewerState, account_id: Seq<char>, gone: Seq<u64>, drop_selection: bool) -> bool {
        &&& after.open_tabs.deep_view() == before.open_tabs.deep_view().filter(tab_stays(account_id, gone))
        &&& after.active_tab == (if after.open_tabs.len() != before.open_tabs.len() {
            None
        } else {
            before.active_tab
        })
        &&& if drop_selection {
            &&& after.selected is None
            &&& after.selected_id is None
            &&& after.thread is None
            &&& after.thread_bodies.deep_view() == Seq::<(Seq<char>, ThreadBodyStateView)>::empty()
        } else {
            &&& after.selected == before.selected
            &&& after.selected_id == before.selected_id
            &&& after.thread == before.thread
            &&& after.thread_bodies == before.thread_bodies
        }
    }

    fn leave_viewer(viewer: &mut ViewerState, account_id: &AccountId, gone: &Vec<u64>, drop_selection: bool)
        ensures
            Self::viewer_left(*old(viewer), *final(viewer), account_id.0@, gone@, drop_selection),
    {
        let count: usize = viewer.open_tabs.len();
        let taken = take_list(&mut viewer.open_tabs);
        viewer.open_tabs = retain_where(
            taken,
            |tab: &ViewerTab| -> (keep: bool)
                ensures
                    keep == tab_stays(account_id.0@, gone@)(tab.deep_view())
                {
                match tab {
                    ViewerTab::Message { message } => message.header.account_id != *account_id,
                    ViewerTab::Loading { reference } => reference.account_id != *account_id,
                    ViewerTab::Compose { compose_id } => !holds_id(gone, *compose_id),
                }
            },
            Ghost(tab_stays(account_id.0@, gone@)),
        );
        if viewer.open_tabs.len() != count {
            viewer.active_tab = None;
        }
        if drop_selection {
            viewer.selected = None;
            viewer.selected_id = None;
            viewer.thread = None;
            viewer.thread_bodies = Vec::new();
            assert(viewer.thread_bodies.deep_view() =~= Seq::empty());
        }
    }

    /// The replies and forwards after an account went.
    pub open spec fn sent_left(before: SentState, after: SentState, account_id: Seq<char>) -> bool {
        let rest = before.messages.deep_view().map_values(sent_without(account_id)).filter(has_sent());
        &&& after.messages.deep_view() == rest
        &&& after.expanded.deep_view() == before.expanded.deep_view().filter(is_sent(rest))
    }

    fn leave_sent(sent: &mut SentState, account_id: &AccountId)
        ensures
            Self::sent_left(*old(sent), *final(sent), account_id.0@),
    {
        let taken = take_list(&mut sent.messages);
        let mapped = map_each(
            taken,
            |entry: (String, Vec<SentMessage>)| -> (kept: (String, Vec<SentMessage>))
                ensures
                    kept.deep_view() == sent_without(account_id.0@)(entry.deep_view())
                {
                (
                    entry.0,
                    retain_where(
                        entry.1,
                        |sent: &SentMessage| -> (keep: bool)
                            ensures
                                keep == sent_elsewhere(account_id.0@)(sent.deep_view())
                            { sent.message.header.account_id != *account_id },
                        Ghost(sent_elsewhere(account_id.0@)),
                    ),
                )
            },
            Ghost(sent_without(account_id.0@)),
        );
        let kept = retain_where(
            mapped,
            |entry: &(String, Vec<SentMessage>)| -> (keep: bool)
                ensures
                    keep == has_sent()(entry.deep_view())
                {
                assert(entry.deep_view().1.len() == entry.1.len());
                entry.1.len() > 0
            },
            Ghost(has_sent()),
        );
        let expanded = take_list(&mut sent.expanded);
        let ghost rest = kept.deep_view();
        let still = retain_where(
            expanded,
            |id: &String| -> (keep: bool)
                ensures
                    keep == is_sent(rest)(id.deep_view())
                { holds_sent(&kept, id) },
            Ghost(is_sent(rest)),
        );
        sent.expanded = still;
        sent.messages = kept;
    }

    /// What is asked for the composers that go.
    pub open spec fn close_asks(gone: Seq<u64>) -> Seq<EffectView> {
        gone.map_values(|compose_id: u64| EffectView::CloseCompose { compose_id })
    }

    /// Closes composers.
    fn close_composes(&mut self, gone: &Vec<u64>)
        ensures
            final(self).asked(*old(self), Self::close_asks(gone@)),
            *final(self) == (AviaryApp { effects: final(self).effects, ..*old(self) }),
    {
        let ghost start = *self;
        let ghost ask = |compose_id: u64| EffectView::CloseCompose { compose_id };
        let mut i: usize = 0;
        assert(self.effects.deep_view() =~= start.effects.deep_view() + Self::close_asks(gone@.take(0)));
        while i < gone.len()
            invariant
                i <= gone.len(),
                ask == (|compose_id: u64| EffectView::CloseCompose { compose_id }),
                self.asked(start, Self::close_asks(gone@.take(i as int))),
                *self == (AviaryApp { effects: self.effects, ..start }),
            decreases gone.len() - i,
        {
            let ghost middle = *self;
            self.send(Effect::CloseCompose { compose_id: gone[i] });
            proof {
                let before = Self::close_asks(gone@.take(i as int));
                AviaryApp::lemma_asked(start, middle, *self, before, seq![ask(gone@[i as int])]);
                assert(before + seq![ask(gone@[i as int])] =~= Self::close_asks(gone@.take(i + 1)));
            }
            i += 1;
        }
        assert(gone@.take(gone@.len() as int) =~= gone@);
    }

    /// Takes an account out of the composers, the reading pane and the replies.
    fn leave_panes(&mut self, account_id: &AccountId)
        ensures
            old(self).panes_left(*final(self), account_id.0@),
    {
        let ghost start = *self;
        let drop_selection = self.selection_belongs(account_id);
        let gone = composes_from(&self.composes, account_id);
        let count: usize = self.mailbox.viewer.open_tabs.len();
        self.close_composes(&gone);
        let taken = take_list(&mut self.composes);
        self.composes = retain_where(
            taken,
            |handle: &ComposeHandle| -> (keep: bool)
                ensures
                    keep == writes_elsewhere(account_id.0@)(handle.deep_view())
                { !holds_account(&handle.account_ids, account_id) },
            Ghost(writes_elsewhere(account_id.0@)),
        );
        Self::leave_viewer(&mut self.mailbox.viewer, account_id, &gone, drop_selection);
        let tabs_left = self.mailbox.viewer.open_tabs.len() != count;
        if tabs_left || drop_selection {
            self.translation_shown = false;
            self.sender_history = SenderHistoryState::Idle;
        }
        Self::leave_sent(&mut self.mailbox.sent, account_id);
        let ghost middle = *self;
        self.send(Effect::CloseOrphanedReplies { account_id: account_id.clone() });
        if gone.len() > 0 || tabs_left {
            self.session_dirty = true;
        }
        proof {
            assert(middle.asked(start, Self::close_asks(gone@)));
            AviaryApp::lemma_asked(
                start,
                middle,
                *self,
                Self::close_asks(gone@),
                seq![EffectView::CloseOrphanedReplies { account_id: account_id.0@ }],
            );
        }
    }

    /// The composers, the reading pane and the replies after an account went.
    pub open spec fn panes_left(self, after: AviaryApp, account_id: Seq<char>) -> bool {
        let gone = composes_of(self.composes.deep_view(), account_id);
        let tabs_left = after.mailbox.viewer.open_tabs.len() != self.mailbox.viewer.open_tabs.len();
        let cleared = tabs_left || self.selection_of(account_id);
        &&& after.composes.deep_view() == self.composes.deep_view().filter(writes_elsewhere(account_id))
        &&& Self::viewer_left(
            self.mailbox.viewer,
            after.mailbox.viewer,
            account_id,
            gone,
            self.selection_of(account_id),
        )
        &&& Self::sent_left(self.mailbox.sent, after.mailbox.sent, account_id)
        &&& after.asked(self, Self::close_asks(gone) + seq![EffectView::CloseOrphanedReplies { account_id }])
        &&& after == (AviaryApp {
            composes: after.composes,
            mailbox: MailboxState {
                viewer: after.mailbox.viewer,
                sent: after.mailbox.sent,
                ..self.mailbox
            },
            translation_shown: if cleared {
                false
            } else {
                self.translation_shown
            },
            sender_history: if cleared {
                SenderHistoryState::Idle
            } else {
                self.sender_history
            },
            session_dirty: self.session_dirty || gone.len() > 0 || tabs_left,
            effects: after.effects,
            ..self
        })
    }

    /// The results without an account, where there are results.
    pub open spec fn results_left(results: Option<Seq<MessageHeaderView>>, account_id: Seq<char>) -> Option<
        Seq<MessageHeaderView>,
    > {
        match results {
            Some(headers) => Some(headers.filter(of_other_account(account_id))),
            None => None,
        }
    }

    /// The data at hand after an account went.
    pub open spec fn data_left(self, after: AviaryApp, account_id: Seq<char>) -> bool {
        let was_listed = self.mailbox.unified_selected_account.deep_view() == Some(account_id);
        &&& after.accounts.deep_view() == self.accounts.deep_view().filter(account_other(account_id))
        &&& after.unavailable_accounts@ == self.unavailable_accounts@.remove(account_id)
        &&& after.contacts.by_account@ == self.contacts.by_account@.remove(account_id)
        &&& after.contacts.loading_accounts.deep_view() == self.contacts.loading_accounts.deep_view().filter(
            other_account(account_id),
        )
        &&& after.tags.by_account@ == self.tags.by_account@.remove(account_id)
        &&& after.tags.loading.deep_view() == self.tags.loading.deep_view().filter(other_account(account_id))
        &&& after.kanban.accounts@ == self.kanban.accounts@.remove(account_id)
        &&& after.kanban.invalidated(self.kanban)
        &&& after.kanban.preview == (if self.previews(account_id) {
            None
        } else {
            self.kanban.preview
        })
        &&& after.kanban.hovered_cards.deep_view() == self.kanban.hovered_cards.deep_view().filter(
            after.kanban.hover_is_shown(),
        )
        &&& after.kanban.column_scrolls == self.kanban.column_scrolls
        &&& after.mailbox.folders_by_account@ == self.mailbox.folders_by_account@.remove(account_id)
        &&& after.mailbox.messages.deep_view() == self.mailbox.messages.deep_view().filter(
            of_other_account(account_id),
        )
        &&& after.mailbox.search.results.deep_view() == Self::results_left(
            self.mailbox.search.results.deep_view(),
            account_id,
        )
        &&& after.asked(self, seq![EffectView::ResetSettingsView, EffectView::DiscardRehydrate { account_id }])
        &&& after == (AviaryApp {
            accounts: after.accounts,
            unavailable_accounts: after.unavailable_accounts,
            contacts: after.contacts,
            tags: after.tags,
            kanban: after.kanban,
            mailbox: MailboxState {
                folders_by_account: after.mailbox.folders_by_account,
                messages: after.mailbox.messages,
                search: SearchState { results: after.mailbox.search.results, ..self.mailbox.search },
                unified_selected_account: if was_listed {
                    None
                } else {
                    self.mailbox.unified_selected_account
                },
                selected_folder_id: if was_listed {
                    None
                } else {
                    self.mailbox.selected_folder_id
                },
                ..self.mailbox
            },
            effects: after.effects,
            ..self
        })
    }

    /// Whether the preview of the board shows a message of an account.
    pub open spec fn previews(self, account_id: Seq<char>) -> bool {
        match self.kanban.preview.deep_view() {
            Some((account, _)) => account == account_id,
            None => false,
        }
    }

    /// Takes an account out of the lists.
    fn leave_mailbox(mailbox: &mut MailboxState, account_id: &AccountId)
        ensures
            ({
                let before = *old(mailbox);
                let after = *final(mailbox);
                let was_listed = before.unified_selected_account.deep_view() == Some(account_id.0@);
                &&& after.folders_by_account@ == before.folders_by_account@.remove(account_id.0@)
                &&& after.messages.deep_view() == before.messages.deep_view().filter(of_other_account(account_id.0@))
                &&& after.search.results.deep_view() == Self::results_left(
                    before.search.results.deep_view(),
                    account_id.0@,
                )
                &&& after == (MailboxState {
                    folders_by_account: after.folders_by_account,
                    messages: after.messages,
                    search: SearchState { results: after.search.results, ..before.search },
                    unified_selected_account: if was_listed {
                        None
                    } else {
                        before.unified_selected_account
                    },
                    selected_folder_id: if was_listed {
                        None
                    } else {
                        before.selected_folder_id
                    },
                    ..before
                })
            }),
    {
        let _folders = mailbox.folders_by_account.remove(account_id);
        drop_account_headers(&mut mailbox.messages, account_id);
        if let Some(results) = &mut mailbox.search.results {
            drop_account_headers(results, account_id);
        }
        if is_account(&mailbox.unified_selected_account, account_id) {
            mailbox.unified_selected_account = None;
            mailbox.selected_folder_id = None;
        }
    }

    /// Takes an account out of the data at hand.
    fn leave_data(&mut self, account_id: &AccountId)
        ensures
            old(self).data_left(*final(self), account_id.0@),
    {
        let ghost start = self.effects.deep_view();
        let taken = take_list(&mut self.accounts);
        self.accounts = retain_where(
            taken,
            |account: &Account| -> (keep: bool)
                ensures
                    keep == account_other(account_id.0@)(account.deep_view())
                { account.id != *account_id },
            Ghost(account_other(account_id.0@)),
        );
        self.send(Effect::ResetSettingsView);
        let _unavailable = self.unavailable_accounts.remove(account_id);
        let _contacts = self.contacts.by_account.remove(account_id);
        drop_account(&mut self.contacts.loading_accounts, account_id);
        self.send(Effect::DiscardRehydrate { account_id: account_id.clone() });
        let _tags = self.tags.by_account.remove(account_id);
        drop_account(&mut self.tags.loading, account_id);
        self.kanban.remove_account(account_id);
        Self::leave_mailbox(&mut self.mailbox, account_id);
        assert(self.effects.deep_view() =~= start + seq![
            EffectView::ResetSettingsView,
            EffectView::DiscardRehydrate { account_id: account_id.0@ },
        ]);
    }

    /// What is asked for when an account went that was current or the default.
    pub open spec fn choice_asks(self, account_id: Seq<char>) -> Seq<EffectView> {
        (if self.current_account_id.deep_view() == Some(account_id) {
            seq![
                EffectView::AccountContext { current: first_account(self.accounts.deep_view()) },
                EffectView::SaveSettings,
            ]
        } else {
            Seq::empty()
        }) + (if self.settings.global.default_account_id.deep_view() == Some(account_id) {
            seq![EffectView::SaveSettings]
        } else {
            Seq::empty()
        }) + (if self.view == MainView::Mail && self.accounts.len() > 0 {
            seq![EffectView::RequestMailboxRefresh]
        } else {
            Seq::empty()
        })
    }

    /// The current and the default account, and whether anybody is signed in, after an
    /// account went.
    pub open spec fn choices_left(self, after: AviaryApp, account_id: Seq<char>) -> bool {
        let first = first_account(self.accounts.deep_view());
        &&& after.current_account_id.deep_view() == (if self.current_account_id.deep_view() == Some(account_id) {
            first
        } else {
            self.current_account_id.deep_view()
        })
        &&& after.settings.global.default_account_id.deep_view() == (if self.settings.global.default_account_id.deep_view()
            == Some(account_id) {
            first
        } else {
            self.settings.global.default_account_id.deep_view()
        })
        &&& same_but_default(self.settings.global, after.settings.global)
        &&& after.settings.accounts == self.settings.accounts
        &&& after.auth == (if self.accounts.len() == 0 && self.unavailable_accounts@ == Map::<
            Seq<char>,
            (crate::model::Provider, String),
        >::empty() {
            AuthState::Idle
        } else {
            self.auth
        })
        &&& after.asked(self, self.choice_asks(account_id))
        &&& after == (AviaryApp {
            current_account_id: after.current_account_id,
            settings: after.settings,
            auth: after.auth,
            effects: after.effects,
            ..self
        })
    }

    /// The id of the first account.
    fn first_account_id(&self) -> (id: Option<AccountId>)
        ensures
            id.deep_view() == first_account(self.accounts.deep_view()),
    {
        if self.accounts.len() > 0 {
            assert(self.accounts.deep_view()[0] == self.accounts[0].deep_view());
            Some(self.accounts[0].id.clone())
        } else {
            None
        }
    }

    /// Chooses another current and another default account.
    fn leave_choices(&mut self, account_id: &AccountId)
        ensures
            old(self).choices_left(*final(self), account_id.0@),
    {
        let ghost start = *self;
        let first = self.first_account_id();
        proof {
            lemma_same_default(self.settings.global);
        }
        if is_account(&self.current_account_id, account_id) {
            self.current_account_id = first.clone();
            self.send(Effect::AccountContext { current: first.clone() });
            self.send(Effect::SaveSettings);
        }
        if is_text(&self.settings.global.default_account_id, &account_id.0) {
            let name: Option<String> = match first {
                Some(id) => Some(id.0),
                None => None,
            };
            set_default(&mut self.settings.global, name);
            self.send(Effect::SaveSettings);
        }
        let mail = match self.view {
            MainView::Mail => true,
            _ => false,
        };
        if mail && self.accounts.len() > 0 {
            self.send(Effect::RequestMailboxRefresh);
        }
        if self.accounts.len() == 0 && self.unavailable_accounts.is_empty() {
            self.auth = AuthState::Idle;
        }
        assert(self.effects.deep_view() =~= start.effects.deep_view() + start.choice_asks(account_id.0@));
    }

    /// An account signed out: everything of it goes, step by step.
    pub open spec fn signed_out(self, panes: AviaryApp, data: AviaryApp, choices: AviaryApp, after: AviaryApp, account_id: Seq<char>) -> bool {
        &&& self.panes_left(panes, account_id)
        &&& panes.data_left(data, account_id)
        &&& data.choices_left(choices, account_id)
        &&& after.sender_history.deep_view() == choices.history_after()
        &&& after.asked(choices, choices.history_asks() + seq![EffectView::UpdateTrayUnread])
        &&& after == (AviaryApp { sender_history: after.sender_history, effects: after.effects, ..choices })
    }

    /// What `on_logged_out` does.
    pub open spec fn logged_out_handled(self, after: AviaryApp, account_id: AccountId) -> bool {
        exists|panes: AviaryApp, data: AviaryApp, choices: AviaryApp|
        #[trigger] self.signed_out(panes, data, choices, after, account_id.0@)
    }

    /// An account signed out.
    pub fn on_logged_out(&mut self, account_id: AccountId)
        ensures
            old(self).logged_out_handled(*final(self), account_id),
    {
        let ghost start = *self;
        self.leave_panes(&account_id);
        let ghost panes = *self;
        self.leave_data(&account_id);
        let ghost data = *self;
        self.leave_choices(&account_id);
        let ghost choices = *self;
        self.refresh_sender_history_for_displayed();
        let ghost middle = *self;
        self.send(Effect::UpdateTrayUnread);
        proof {
            AviaryApp::lemma_asked(
                choices,
                middle,
                *self,
                choices.history_asks(),
                seq![EffectView::UpdateTrayUnread],
            );
            assert(start.signed_out(panes, data, choices, *self, account_id.0@));
        }
    }
}

/// After an account signed out, it is not configured; no message of it is listed or found,
/// no tab, no composer and no column shows it; and it is neither the current account nor
/// the default one nor the one that the list shows.
pub proof fn law_signed_out_accounts_are_not_shown(
    before: AviaryApp,
    panes: AviaryApp,
    data: AviaryApp,
    choices: AviaryApp,
    after: AviaryApp,
    account_id: Seq<char>,
)
    requires
        before.signed_out(panes, data, choices, after, account_id),
    ensures
        !after.has_account(account_id),
        !after.shows_account(account_id),
        forall|i: int|
            0 <= i < after.mailbox.messages.len() ==> (#[trigger] after.mailbox.messages.deep_view()[i]).account_id
                != account_id,
        after.mailbox.search.results.deep_view() is Some ==> (forall|i: int|
            0 <= i < after.mailbox.search.results.deep_view()->0.len() ==> (
            #[trigger] after.mailbox.search.results.deep_view()->0[i]).account_id != account_id),
        forall|i: int|
            0 <= i < after.composes.len() ==> !(#[trigger] after.composes.deep_view()[i]).account_ids.contains(
                account_id,
            ),
        !after.kanban.accounts@.contains_key(account_id),
        !after.tags.by_account@.contains_key(account_id),
        !after.mailbox.folders_by_account@.contains_key(account_id),
        !after.previews(account_id),
        after.current_account_id.deep_view() != Some(account_id),
        after.mailbox.unified_selected_account.deep_view() != Some(account_id),
        after.settings.global.default_account_id.deep_view() != Some(account_id),
{
    lemma_filtered(before.accounts.deep_view(), account_other(account_id));
    lemma_filtered(before.mailbox.messages.deep_view(), of_other_account(account_id));
    if let Some(results) = before.mailbox.search.results.deep_view() {
        lemma_filtered(results, of_other_account(account_id));
    }
    lemma_filtered(before.composes.deep_view(), writes_elsewhere(account_id));
    let gone = composes_of(before.composes.deep_view(), account_id);
    lemma_filtered(before.mailbox.viewer.open_tabs.deep_view(), tab_stays(account_id, gone));
    let tabs = after.mailbox.viewer.open_tabs.deep_view();
    assert(!tabs.any(AviaryApp::tab_of_account(account_id))) by {
        if tabs.any(AviaryApp::tab_of_account(account_id)) {
            let i = choose|i: int|
                0 <= i < tabs.len() && #[trigger] AviaryApp::tab_of_account(account_id)(tabs[i]);
            assert(tab_stays(account_id, gone)(tabs[i]));
        }
    }
    assert(data.accounts.deep_view().len() == data.accounts.len());
    assert(!after.has_account(account_id)) by {
        let accounts = after.accounts.deep_view();
        if accounts.any(account_named(account_id)) {
            let i = choose|i: int| 0 <= i < accounts.len() && #[trigger] account_named(account_id)(accounts[i]);
            assert(account_other(account_id)(accounts[i]));
        }
    }
    if data.accounts.len() > 0 {
        assert(account_other(account_id)(data.accounts.deep_view()[0]));
    }
}

proof fn lemma_filtered<V>(s: Seq<V>, p: spec_fn(V) -> bool)
    ensures
        forall|i: int| 0 <= i < s.filter(p).len() ==> p(#[trigger] s.filter(p)[i]),
    decreases s.len(),
{
    reveal(Seq::filter);
    if s.len() > 0 {
        lemma_filtered(s.drop_last(), p);
    }
}

} // verus!
