//! What the application knows of its accounts, and how it asks for things.
use crate::list_entries::holds_text;
use crate::lists::{any_where, first_index, position_where, retain_where, take_list};
use crate::model::{
    Account, AccountId, AccountView, MessageHeader, MessageHeaderView, MessageRefView, Provider, Tag, TagView,
};
use crate::state::{
    AviaryApp, Effect, EffectView, Notice, NoticeText, NoticeTextView, NoticeView, Offer, ToastKind, Topic, TopicView, ViewerTab,
    ViewerTabView,
};
use vstd::prelude::*;

verus! {

/// Whether an account is the one named `id`.
pub open spec fn account_named(id: Seq<char>) -> spec_fn(AccountView) -> bool {
    |account: AccountView| account.id == id
}

/// Whether an account is none of those that are hidden.
pub open spec fn not_hidden(hidden: Seq<Seq<char>>) -> spec_fn(AccountView) -> bool {
    |account: AccountView| !hidden.contains(account.id)
}

/// Whether a header belongs to another account than `id`.
pub open spec fn of_other_account(id: Seq<char>) -> spec_fn(MessageHeaderView) -> bool {
    |message: MessageHeaderView| message.account_id != id
}

/// Whether an account is another one than `id`.
pub open spec fn other_account(id: Seq<char>) -> spec_fn(Seq<char>) -> bool {
    |account: Seq<char>| account != id
}

/// Whether a message is another one.
pub open spec fn other_reference(reference: MessageRefView) -> spec_fn(MessageRefView) -> bool {
    |other: MessageRefView| other != reference
}

/// Key under which messages carry a tag: the name at a provider whose tags are named
/// on messages, the id elsewhere.
pub open spec fn storage_key(provider: Provider, tag: TagView) -> Seq<char> {
    match provider {
        Provider::Microsoft => tag.display_name,
        _ => tag.id,
    }
}

/// Key under which messages carry a tag.
pub fn tag_storage_key(provider: Provider, tag: &Tag) -> (key: String)
    ensures
        key@ == storage_key(provider, tag.deep_view()),
{
    match provider {
        Provider::Microsoft => tag.display_name.clone(),
        _ => tag.id.clone(),
    }
}

/// A notification that goes away by itself.
pub open spec fn passing(kind: ToastKind, text: NoticeTextView) -> EffectView {
    EffectView::Toast {
        notice: NoticeView {
            kind,
            text,
            detail: None,
            stays: false,
            topic: TopicView::Nothing,
            offer: Offer::Nothing,
        },
    }
}

/// A notification that goes away by itself, with an entry of the translation catalog.
pub open spec fn told(kind: ToastKind, key: Seq<char>) -> EffectView {
    passing(kind, NoticeTextView::Key { key })
}

/// Whether `a` and `b` are the same text, or both none.
pub(crate) fn same_text(a: &Option<String>, b: &Option<String>) -> (same: bool)
    ensures
        same == (a.deep_view() == b.deep_view()),
{
    match (a, b) {
        (Some(a), Some(b)) => *a == *b,
        (None, None) => true,
        _ => false,
    }
}

/// Whether `a` is the text `b`.
pub(crate) fn is_text(a: &Option<String>, b: &String) -> (same: bool)
    ensures
        same == (a.deep_view() == Some(b@)),
{
    match a {
        Some(a) => *a == *b,
        None => false,
    }
}

/// Whether `a` is the account `b`.
pub(crate) fn is_account(a: &Option<AccountId>, b: &AccountId) -> (same: bool)
    ensures
        same == (a.deep_view() == Some(b.0@)),
{
    match a {
        Some(a) => *a == *b,
        None => false,
    }
}

/// Whether `accounts` holds `id`.
pub(crate) fn holds_account(accounts: &Vec<AccountId>, id: &AccountId) -> (found: bool)
    ensures
        found == accounts.deep_view().contains(id.0@),
{
    let mut i: usize = 0;
    while i < accounts.len()
        invariant
            i <= accounts.len(),
            forall|j: int| 0 <= j < i ==> accounts.deep_view()[j] != id.0@,
        decreases accounts.len() - i,
    {
        assert(accounts.deep_view()[i as int] == accounts[i as int].0@);
        if accounts[i] == *id {
            return true;
        }
        i += 1;
    }
    false
}

/// Drops `id` from `accounts`.
pub(crate) fn drop_account(accounts: &mut Vec<AccountId>, id: &AccountId)
    ensures
        final(accounts).deep_view() == old(accounts).deep_view().filter(other_account(id.0@)),
{
    let taken = take_list(accounts);
    *accounts = retain_where(
        taken,
        |other: &AccountId| -> (keep: bool)
            ensures
                keep == (other.deep_view() != id.0@)
            { *other != *id },
        Ghost(other_account(id.0@)),
    );
}

/// Drops the headers of an account.
pub(crate) fn drop_account_headers(headers: &mut Vec<MessageHeader>, id: &AccountId)
    ensures
        final(headers).deep_view() == old(headers).deep_view().filter(of_other_account(id.0@)),
{
    let taken = take_list(headers);
    *headers = retain_where(
        taken,
        |message: &MessageHeader| -> (keep: bool)
            ensures
                keep == (message.deep_view().account_id != id.0@)
            { message.account_id != *id },
        Ghost(of_other_account(id.0@)),
    );
}

impl AviaryApp {
    /// Whether an account takes part in the unified inbox.
    pub open spec fn included(self, id: Seq<char>) -> bool {
        !self.settings.global.unified_hidden_account_ids.deep_view().contains(id)
    }

    /// Whether an account takes part in the unified inbox, for a configured account.
    pub open spec fn account_included(self) -> spec_fn(AccountView) -> bool {
        not_hidden(self.settings.global.unified_hidden_account_ids.deep_view())
    }

    /// The accounts that the list shows.
    pub open spec fn active_accounts(self) -> Seq<Seq<char>> {
        match self.mailbox.unified_selected_account {
            Some(id) => seq![id.0@],
            None => self.accounts.deep_view().filter(self.account_included()).map_values(
                |account: AccountView| account.id,
            ),
        }
    }

    /// Whether an event of an account concerns the list.
    pub open spec fn relevant(self, id: Seq<char>) -> bool {
        self.active_accounts().contains(id)
    }

    /// Whether the list pages through several accounts at once.
    pub open spec fn unified_pagination(self) -> bool {
        self.mailbox.unified_selected_account is None && self.active_accounts().len() > 1
    }

    /// Whether the list pages through the given account alone.
    pub open spec fn paginates(self, id: Seq<char>) -> bool {
        self.active_accounts() == seq![id]
    }

    /// Whether a message was asked for by a click on a notification of the desktop.
    pub open spec fn awaited(self, account: Seq<char>, id: Seq<char>) -> bool {
        match self.pending.notification_open {
            Some(reference) => reference.deep_view() == (MessageRefView { account_id: account, id }),
            None => false,
        }
    }

    /// Whether a tab of the reading pane belongs to an account.
    pub open spec fn tab_of_account(id: Seq<char>) -> spec_fn(ViewerTabView) -> bool {
        |tab: ViewerTabView|
            match tab {
                ViewerTabView::Message { message } => message.header.account_id == id,
                ViewerTabView::Loading { reference } => reference.account_id == id,
                ViewerTabView::Compose { .. } => false,
            }
    }

    /// Whether the reading pane shows a message of an account.
    pub open spec fn shows_account(self, id: Seq<char>) -> bool {
        ||| match self.mailbox.viewer.selected {
            Some(message) => message.deep_view().header.account_id == id,
            None => false,
        }
        ||| self.mailbox.viewer.open_tabs.deep_view().any(Self::tab_of_account(id))
    }

    /// Whether an account is configured.
    pub open spec fn has_account(self, id: Seq<char>) -> bool {
        self.accounts.deep_view().any(account_named(id))
    }

    /// Provider of an account.
    pub open spec fn provider_of(self, id: Seq<char>) -> Provider {
        match first_index(self.accounts.deep_view(), account_named(id)) {
            Some(i) => self.accounts.deep_view()[i].provider,
            None => Provider::Microsoft,
        }
    }

    /// The configured account `id`.
    pub fn account(&self, id: &AccountId) -> (account: Option<&Account>)
        ensures
            match account {
                Some(account) => first_index(self.accounts.deep_view(), account_named(id.0@)) is Some
                    && account.deep_view() == self.accounts.deep_view()[first_index(
                    self.accounts.deep_view(),
                    account_named(id.0@),
                )->0],
                None => first_index(self.accounts.deep_view(), account_named(id.0@)) is None,
            },
            account is Some == self.has_account(id.0@),
    {
        let found = position_where(
            &self.accounts,
            |account: &Account| -> (same: bool)
                ensures
                    same == (account.deep_view().id == id.0@)
                { account.id == *id },
            Ghost(account_named(id.0@)),
        );
        proof {
            crate::lists::lemma_first_index(self.accounts.deep_view(), account_named(id.0@));
        }
        match found {
            Some(i) => {
                assert(self.accounts.deep_view()[i as int] == self.accounts[i as int].deep_view());
                Some(&self.accounts[i])
            },
            None => None,
        }
    }

    /// Provider of an account.
    pub fn provider(&self, id: &AccountId) -> (provider: Provider)
        ensures
            provider == self.provider_of(id.0@),
    {
        match self.account(id) {
            Some(account) => account.provider,
            None => Provider::Microsoft,
        }
    }

    /// Whether an account takes part in the unified inbox.
    pub fn unified_account_included(&self, id: &AccountId) -> (yes: bool)
        ensures
            yes == self.included(id.0@),
    {
        !holds_text(&self.settings.global.unified_hidden_account_ids, &id.0)
    }

    /// The accounts that the list shows.
    pub fn active_account_ids(&self) -> (ids: Vec<AccountId>)
        ensures
            ids.deep_view() == self.active_accounts(),
    {
        let mut ids: Vec<AccountId> = Vec::new();
        match &self.mailbox.unified_selected_account {
            Some(id) => {
                ids.push(id.clone());
                assert(ids.deep_view() =~= self.active_accounts());
            },
            None => {
                let ghost all = self.accounts.deep_view();
                let ghost test = self.account_included();
                let ghost id_of = |account: AccountView| account.id;
                let mut i: usize = 0;
                proof {
                    reveal(Seq::filter);
                    assert(ids.deep_view() =~= all.take(0).filter(test).map_values(id_of));
                }
                while i < self.accounts.len()
                    invariant
                        i <= self.accounts.len(),
                        all == self.accounts.deep_view(),
                        test == self.account_included(),
                        id_of == (|account: AccountView| account.id),
                        ids.deep_view() == all.take(i as int).filter(test).map_values(id_of),
                    decreases self.accounts.len() - i,
                {
                    let ghost before = ids.deep_view();
                    assert(all[i as int] == self.accounts[i as int].deep_view());
                    proof {
                        reveal(Seq::filter);
                        assert(all.take(i + 1).drop_last() =~= all.take(i as int));
                        let front = all.take(i as int).filter(test);
                        assert(front.push(all[i as int]).map_values(id_of) =~= front.map_values(id_of).push(
                            id_of(all[i as int]),
                        ));
                    }
                    if self.unified_account_included(&self.accounts[i].id) {
                        ids.push(self.accounts[i].id.clone());
                        assert(ids.deep_view() =~= before.push(all[i as int].id));
                    }
                    i += 1;
                }
                assert(all.take(all.len() as int) =~= all);
            },
        }
        ids
    }

    /// Whether an event of an account concerns the list.
    pub fn event_relevant(&self, account_id: &AccountId) -> (yes: bool)
        ensures
            yes == self.relevant(account_id.0@),
    {
        holds_account(&self.active_account_ids(), account_id)
    }

    /// Whether the list pages through several accounts at once.
    pub fn uses_unified_pagination(&self) -> (yes: bool)
        ensures
            yes == self.unified_pagination(),
    {
        let ids = self.active_account_ids();
        assert(ids.deep_view().len() == ids.len());
        self.mailbox.unified_selected_account.is_none() && ids.len() > 1
    }

    /// Whether a message was asked for by a click on a notification of the desktop.
    /// The account of the notification need not be the one on display.
    pub fn awaits_notification_open(&self, account_id: &AccountId, id: &String) -> (yes: bool)
        ensures
            yes == self.awaited(account_id.0@, id@),
    {
        match &self.pending.notification_open {
            Some(reference) => reference.account_id == *account_id && reference.id == *id,
            None => false,
        }
    }

    /// Whether the reading pane shows a message of an account.
    pub fn viewer_shows_account(&self, account_id: &AccountId) -> (yes: bool)
        ensures
            yes == self.shows_account(account_id.0@),
    {
        let selected = match &self.mailbox.viewer.selected {
            Some(message) => message.header.account_id == *account_id,
            None => false,
        };
        selected || any_where(
            &self.mailbox.viewer.open_tabs,
            |tab: &ViewerTab| -> (own: bool)
                ensures
                    own == Self::tab_of_account(account_id.0@)(tab.deep_view())
                {
                match tab {
                    ViewerTab::Message { message } => message.header.account_id == *account_id,
                    ViewerTab::Loading { reference } => reference.account_id == *account_id,
                    ViewerTab::Compose { .. } => false,
                }
            },
            Ghost(Self::tab_of_account(account_id.0@)),
        )
    }

    /// Whether the list pages through the given account alone.
    pub fn can_paginate_account(&self, account_id: &AccountId) -> (yes: bool)
        ensures
            yes == self.paginates(account_id.0@),
    {
        match &self.mailbox.unified_selected_account {
            Some(selected) => {
                let same = *selected == *account_id;
                proof {
                    if same {
                        assert(self.active_accounts() =~= seq![account_id.0@]);
                    } else {
                        assert(self.active_accounts()[0] != seq![account_id.0@][0]);
                    }
                }
                same
            },
            None => {
                let active = self.active_account_ids();
                assert(active.deep_view().len() == active.len());
                if active.len() == 1 {
                    let same = active[0] == *account_id;
                    assert(active.deep_view()[0] == active[0].0@);
                    proof {
                        if same {
                            assert(self.active_accounts() =~= seq![account_id.0@]);
                        } else {
                            assert(self.active_accounts()[0] != seq![account_id.0@][0]);
                        }
                    }
                    same
                } else {
                    assert(seq![account_id.0@].len() == 1);
                    false
                }
            },
        }
    }

    /// How many messages a request for an account fetches.
    pub open spec fn limit_of(self, id: Seq<char>) -> usize {
        self.settings.account_view(id).fetch_limit
    }

    /// How many messages a request for an account fetches.
    pub fn fetch_limit(&self, account_id: &AccountId) -> (limit: usize)
        ensures
            limit == self.limit_of(account_id.0@),
    {
        match self.settings.accounts.get(account_id) {
            Some(account) => account.fetch_limit,
            None => 20,
        }
    }

    /// The effects of `self` are those of `before` and then `added`.
    pub open spec fn asked(self, before: AviaryApp, added: Seq<EffectView>) -> bool {
        self.effects.deep_view() == before.effects.deep_view() + added
    }

    /// What is asked for in two steps is asked for in one.
    pub proof fn lemma_asked(start: AviaryApp, middle: AviaryApp, end: AviaryApp, a: Seq<EffectView>, b: Seq<EffectView>)
        requires
            middle.asked(start, a),
            end.asked(middle, b),
        ensures
            end.asked(start, a + b),
    {
        assert(start.effects.deep_view() + a + b =~= start.effects.deep_view() + (a + b));
    }

    /// Asks for something.
    pub fn send(&mut self, effect: Effect)
        ensures
            final(self).asked(*old(self), seq![effect.deep_view()]),
            *final(self) == (AviaryApp { effects: final(self).effects, ..*old(self) }),
    {
        let ghost before = self.effects.deep_view();
        let ghost shown = effect.deep_view();
        self.effects.push(effect);
        assert(self.effects.deep_view() =~= before + seq![shown]);
    }

    /// Shows a notification that goes away by itself.
    pub fn toast(&mut self, kind: ToastKind, text: NoticeText)
        ensures
            final(self).asked(*old(self), seq![passing(kind, text.deep_view())]),
            *final(self) == (AviaryApp { effects: final(self).effects, ..*old(self) }),
    {
        self.send(
            Effect::Toast {
                notice: Notice { kind, text, detail: None, stays: false, topic: Topic::Nothing, offer: Offer::Nothing },
            },
        );
    }

    /// Shows an entry of the translation catalog for a moment.
    pub fn tell(&mut self, kind: ToastKind, key: &'static str)
        ensures
            final(self).asked(*old(self), seq![told(kind, key@)]),
            *final(self) == (AviaryApp { effects: final(self).effects, ..*old(self) }),
    {
        self.toast(kind, NoticeText::Key { key });
    }

    /// The revision that follows.
    pub open spec fn next_revision(self) -> u64 {
        if self.message_list_revision == u64::MAX {
            0
        } else {
            (self.message_list_revision + 1) as u64
        }
    }

    /// Lets the message list be laid out again.
    pub fn invalidate_message_list(&mut self)
        ensures
            *final(self) == (AviaryApp { message_list_revision: old(self).next_revision(), ..*old(self) }),
    {
        self.message_list_revision = if self.message_list_revision == u64::MAX {
            0
        } else {
            self.message_list_revision + 1
        };
    }
}

} // verus!
