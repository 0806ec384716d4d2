//! Accounts that sign in, fail to come back, and sign out.
use crate::app::{account_named, holds_account, is_text};
use crate::list_entries::holds_text;
use crate::lists::{first_index, lemma_first_index, position_where, sort_stable, stable_sort, take_list};
use crate::model::{Account, AccountId, AccountView, Provider};
use crate::settings::GlobalSettings;
use crate::state::{AuthState, AviaryApp, Effect, EffectView, MainView, TagsState};
use vstd::prelude::*;

verus! {

/// Whether a text is the given one.
pub open spec fn same_as(text: Seq<char>) -> spec_fn(Seq<char>) -> bool {
    |other: Seq<char>| other == text
}

/// Whether the account `a` stands before or with `b` in an order of accounts. Accounts
/// that the order does not name come first.
pub open spec fn account_rank(order: Seq<Seq<char>>) -> spec_fn(AccountView, AccountView) -> bool {
    |a: AccountView, b: AccountView|
        match (first_index(order, same_as(a.id)), first_index(order, same_as(b.id))) {
            (None, _) => true,
            (Some(_), None) => false,
            (Some(i), Some(j)) => i <= j,
        }
}

/// The order of accounts with one more at its end, unless it names it already.
pub open spec fn order_with(order: Seq<Seq<char>>, id: Seq<char>) -> Seq<Seq<char>> {
    if order.contains(id) {
        order
    } else {
        order.push(id)
    }
}

/// The accounts once one is ready: in the place it had, or in that which the order gives
/// it.
pub open spec fn accounts_with(accounts: Seq<AccountView>, account: AccountView, order: Seq<Seq<char>>) -> Seq<AccountView> {
    match first_index(accounts, account_named(account.id)) {
        Some(i) => accounts.update(i, account),
        None => stable_sort(accounts.push(account), account_rank(order_with(order, account.id))),
    }
}

/// Place of a text in a list.
fn place_of(texts: &Vec<String>, text: &String) -> (place: Option<usize>)
    ensures
        match place {
            Some(i) => first_index(texts.deep_view(), same_as(text@)) == Some(i as int),
            None => first_index(texts.deep_view(), same_as(text@)) is None,
        },
{
    position_where(
        texts,
        |other: &String| -> (same: bool)
            ensures
                same == (other.deep_view() == text@)
            { *other == *text },
        Ghost(same_as(text@)),
    )
}

/// Puts accounts in the order of the settings.
pub(crate) fn order_accounts(accounts: Vec<Account>, order: &Vec<String>) -> (ordered: Vec<Account>)
    ensures
        ordered.deep_view() == stable_sort(accounts.deep_view(), account_rank(order.deep_view())),
{
    sort_stable(
        accounts,
        |a: &Account, b: &Account| -> (le: bool)
            ensures
                le == account_rank(order.deep_view())(a.deep_view(), b.deep_view())
            {
            match (place_of(order, &a.id.0), place_of(order, &b.id.0)) {
                (None, _) => true,
                (Some(_), None) => false,
                (Some(i), Some(j)) => i <= j,
            }
        },
        Ghost(account_rank(order.deep_view())),
    )
}

/// Places an account that is ready among the others.
fn place_account(accounts: &mut Vec<Account>, order: &mut Vec<String>, account: Account)
    ensures
        final(accounts).deep_view() == accounts_with(
            old(accounts).deep_view(),
            account.deep_view(),
            old(order).deep_view(),
        ),
        if old(accounts).deep_view().any(account_named(account.id.0@)) {
            *final(order) == *old(order)
        } else {
            final(order).deep_view() == order_with(old(order).deep_view(), account.id.0@)
        },
{
    let ghost before = accounts.deep_view();
    let ghost shown = account.deep_view();
    let ghost test = account_named(account.id.0@);
    proof {
        lemma_first_index(before, test);
    }
    let found = position_where(
        &*accounts,
        |other: &Account| -> (same: bool)
            ensures
                same == (other.deep_view().id == account.id.0@)
            { other.id == account.id },
        Ghost(account_named(account.id.0@)),
    );
    match found {
        Some(i) => {
            assert(before[i as int] == accounts[i as int].deep_view());
            assert(test(before[i as int]));
            accounts.set(i, account);
            assert(accounts.deep_view() =~= before.update(i as int, shown));
        },
        None => {
            let id = account.id.0.clone();
            accounts.push(account);
            assert(accounts.deep_view() =~= before.push(shown));
            let ghost names = order.deep_view();
            if !holds_text(order, &id) {
                order.push(id);
                assert(order.deep_view() =~= names.push(account.id.0@));
            }
            let taken = take_list(accounts);
            *accounts = order_accounts(taken, order);
        },
    }
}

/// Nothing but the order of the accounts differs.
#[verifier::opaque]
pub open spec fn same_but_order(before: GlobalSettings, after: GlobalSettings) -> bool {
    after == (GlobalSettings { account_order: after.account_order, ..before })
}

/// Places an account that is ready among the others, and in the order of the settings.
fn place_in_settings(accounts: &mut Vec<Account>, global: &mut GlobalSettings, account: Account)
    ensures
        final(accounts).deep_view() == accounts_with(
            old(accounts).deep_view(),
            account.deep_view(),
            old(global).account_order.deep_view(),
        ),
        final(global).account_order.deep_view() == (if old(accounts).deep_view().any(account_named(account.id.0@)) {
            old(global).account_order.deep_view()
        } else {
            order_with(old(global).account_order.deep_view(), account.id.0@)
        }),
        same_but_order(*old(global), *final(global)),
        final(global).unified_hidden_account_ids == old(global).unified_hidden_account_ids,
{
    reveal(same_but_order);
    place_account(accounts, &mut global.account_order, account);
}

impl AviaryApp {
    /// What `on_device_code` does.
    pub open spec fn device_code_handled(self, after: AviaryApp, user_code: String, verification_uri: String) -> bool {
        after == (AviaryApp {
            auth: AuthState::AwaitingCode { user_code, verification_uri },
            ..self
        })
    }

    /// A code is to be entered on a page of the provider.
    pub fn on_device_code(&mut self, user_code: String, verification_uri: String)
        ensures
            old(self).device_code_handled(*final(self), user_code, verification_uri),
    {
        self.auth = AuthState::AwaitingCode { user_code, verification_uri };
    }

    /// What `on_google_auth_opening` does.
    pub open spec fn google_auth_opening_handled(self, after: AviaryApp, auth_url: String) -> bool {
        after == (AviaryApp { auth: AuthState::AwaitingGoogle { auth_url }, ..self })
    }

    /// A page of the provider was opened to sign in.
    pub fn on_google_auth_opening(&mut self, auth_url: String)
        ensures
            old(self).google_auth_opening_handled(*final(self), auth_url),
    {
        self.auth = AuthState::AwaitingGoogle { auth_url };
    }

    /// What `on_account_restore_failed` does.
    pub open spec fn account_restore_failed_handled(self, after: AviaryApp, account_id: AccountId, provider: Provider, error: String) -> bool {
        &&& after.unavailable_accounts@ == self.unavailable_accounts@.insert(
            account_id.0@,
            (provider, error),
        )
        &&& after == (AviaryApp {
            unavailable_accounts: after.unavailable_accounts,
            ..self
        })
    }

    /// An account could not be brought back.
    pub fn on_account_restore_failed(&mut self, account_id: AccountId, provider: Provider, error: String)
        ensures
            old(self).account_restore_failed_handled(*final(self), account_id, provider, error),
    {
        self.unavailable_accounts.insert(account_id, (provider, error));
    }

    /// Whether the tags of an account are to be asked for.
    pub open spec fn lacks_tags(self, id: Seq<char>) -> bool {
        !self.tags.by_account@.contains_key(id) && !self.tags.loading.deep_view().contains(id)
    }

    /// The tags of an account are there, on their way, or asked for.
    pub fn ensure_tags_loaded(&mut self, account_id: &AccountId)
        ensures
            if old(self).lacks_tags(account_id.0@) {
                &&& final(self).tags.loading.deep_view() == old(self).tags.loading.deep_view().push(account_id.0@)
                &&& final(self).asked(*old(self), seq![EffectView::LoadTags { account_id: account_id.0@ }])
            } else {
                &&& final(self).tags.loading == old(self).tags.loading
                &&& final(self).asked(*old(self), Seq::empty())
            },
            *final(self) == (AviaryApp {
                tags: TagsState { loading: final(self).tags.loading, ..old(self).tags },
                effects: final(self).effects,
                ..*old(self)
            }),
    {
        assert(self.effects.deep_view() =~= old(self).effects.deep_view() + Seq::<EffectView>::empty());
        if self.tags.by_account.contains_key(account_id) || holds_account(&self.tags.loading, account_id) {
            return;
        }
        let ghost before = self.tags.loading.deep_view();
        self.tags.loading.push(account_id.clone());
        assert(self.tags.loading.deep_view() =~= before.push(account_id.0@));
        self.send(Effect::LoadTags { account_id: account_id.clone() });
    }

    /// Whether the list shows an account.
    pub open spec fn lists(self, id: Seq<char>) -> bool {
        match self.mailbox.unified_selected_account {
            Some(selected) => selected.0@ == id,
            None => self.included(id),
        }
    }

    /// Whether an account becomes the current one when it is ready.
    pub open spec fn becomes_current(self, id: Seq<char>) -> bool {
        self.current_account_id is None || self.settings.global.last_account_id.deep_view() == Some(id)
    }

    /// What is asked for when an account is ready, before its mail.
    pub open spec fn ready_asks(self, id: Seq<char>) -> Seq<EffectView> {
        seq![EffectView::ResetSettingsView] + (if self.becomes_current(id) {
            seq![EffectView::AccountContext { current: Some(id) }, EffectView::SaveSettings]
        } else {
            Seq::empty()
        }) + seq![
            EffectView::ReloadCalendar,
            EffectView::RestoreEventComposes,
            EffectView::RefreshContacts,
            EffectView::RehydrateMessages { account_id: id },
            EffectView::SyncAutoRefresh,
        ]
    }

    /// What is asked for in the mail view when an account is ready.
    pub open spec fn ready_mail_asks(self, id: Seq<char>) -> Seq<EffectView> {
        if self.view != MainView::Mail {
            Seq::empty()
        } else {
            (if self.lacks_tags(id) {
                seq![EffectView::LoadTags { account_id: id }]
            } else {
                Seq::empty()
            }) + seq![EffectView::LoadFolders { account_id: id }] + (if !self.lists(id) {
                Seq::empty()
            } else if self.mailbox.search.query@.len() == 0 {
                seq![EffectView::RequestMailboxRefresh]
            } else {
                seq![
                    EffectView::Search { account_id: id, query: self.mailbox.search.query@, limit: self.limit_of(id) },
                ]
            })
        }
    }

    /// Asks for what an account that is ready needs.
    fn ask_when_ready(&mut self, account_id: &AccountId, current: bool)
        ensures
            final(self).asked(
                *old(self),
                seq![EffectView::ResetSettingsView] + (if current {
                    seq![EffectView::AccountContext { current: Some(account_id.0@) }, EffectView::SaveSettings]
                } else {
                    Seq::empty()
                }) + seq![
                    EffectView::ReloadCalendar,
                    EffectView::RestoreEventComposes,
                    EffectView::RefreshContacts,
                    EffectView::RehydrateMessages { account_id: account_id.0@ },
                    EffectView::SyncAutoRefresh,
                ],
            ),
            *final(self) == (AviaryApp { effects: final(self).effects, ..*old(self) }),
    {
        let ghost start = self.effects.deep_view();
        let ghost id = account_id.0@;
        self.send(Effect::ResetSettingsView);
        if current {
            self.send(Effect::AccountContext { current: Some(account_id.clone()) });
            self.send(Effect::SaveSettings);
        }
        self.send(Effect::ReloadCalendar);
        self.send(Effect::RestoreEventComposes);
        self.send(Effect::RefreshContacts);
        self.send(Effect::RehydrateMessages { account_id: account_id.clone() });
        self.send(Effect::SyncAutoRefresh);
        assert(self.effects.deep_view() =~= start + (seq![EffectView::ResetSettingsView] + (if current {
            seq![EffectView::AccountContext { current: Some(id) }, EffectView::SaveSettings]
        } else {
            Seq::empty()
        }) + seq![
            EffectView::ReloadCalendar,
            EffectView::RestoreEventComposes,
            EffectView::RefreshContacts,
            EffectView::RehydrateMessages { account_id: id },
            EffectView::SyncAutoRefresh,
        ]));
    }

    /// Asks for the mail of an account that is ready, in the mail view.
    fn ask_mail_when_ready(&mut self, account_id: &AccountId)
        ensures
            final(self).asked(*old(self), old(self).ready_mail_asks(account_id.0@)),
            final(self).tags.loading.deep_view() == (if old(self).view == MainView::Mail && old(self).lacks_tags(
                account_id.0@,
            ) {
                old(self).tags.loading.deep_view().push(account_id.0@)
            } else {
                old(self).tags.loading.deep_view()
            }),
            *final(self) == (AviaryApp {
                tags: TagsState { loading: final(self).tags.loading, ..old(self).tags },
                effects: final(self).effects,
                ..*old(self)
            }),
    {
        let ghost start = *self;
        assert(self.effects.deep_view() =~= start.effects.deep_view() + Seq::<EffectView>::empty());
        match self.view {
            MainView::Mail => {},
            _ => {
                return;
            },
        }
        self.ensure_tags_loaded(account_id);
        self.send(Effect::LoadFolders { account_id: account_id.clone() });
        let visible = match &self.mailbox.unified_selected_account {
            Some(selected) => *selected == *account_id,
            None => self.unified_account_included(account_id),
        };
        if visible {
            if self.mailbox.search.query.as_str().is_empty() {
                self.send(Effect::RequestMailboxRefresh);
            } else {
                let query = self.mailbox.search.query.clone();
                let limit: usize = self.fetch_limit(account_id);
                self.send(Effect::Search { account_id: account_id.clone(), query, limit });
            }
        }
        assert(self.effects.deep_view() =~= start.effects.deep_view() + start.ready_mail_asks(account_id.0@));
    }

    /// An account is ready.
    pub open spec fn account_came(self, account: AccountView, after: AviaryApp) -> bool {
        let id = account.id;
        &&& after.unavailable_accounts@ == self.unavailable_accounts@.remove(id)
        &&& after.accounts.deep_view() == accounts_with(
            self.accounts.deep_view(),
            account,
            self.settings.global.account_order.deep_view(),
        )
        &&& after.settings.global.account_order.deep_view() == (if self.has_account(id) {
            self.settings.global.account_order.deep_view()
        } else {
            order_with(self.settings.global.account_order.deep_view(), id)
        })
        &&& same_but_order(self.settings.global, after.settings.global)
        &&& after.settings.accounts == self.settings.accounts
        &&& after.auth == AuthState::Authenticated
        &&& after.current_account_id.deep_view() == (if self.becomes_current(id) {
            Some(id)
        } else {
            self.current_account_id.deep_view()
        })
        &&& after.tags.loading.deep_view() == (if self.view == MainView::Mail && self.lacks_tags(id) {
            self.tags.loading.deep_view().push(id)
        } else {
            self.tags.loading.deep_view()
        })
        &&& after.asked(self, self.ready_asks(id) + self.ready_mail_asks(id))
        &&& after == (AviaryApp {
            unavailable_accounts: after.unavailable_accounts,
            accounts: after.accounts,
            settings: after.settings,
            auth: after.auth,
            current_account_id: after.current_account_id,
            tags: TagsState { loading: after.tags.loading, ..self.tags },
            effects: after.effects,
            ..self
        })
    }

    /// What `on_account_ready` does.
    pub open spec fn account_ready_handled(self, after: AviaryApp, account: Account) -> bool {
        self.account_came(account.deep_view(), after)
    }

    /// An account is ready: it takes its place among the others, and its data is asked for.
    pub fn on_account_ready(&mut self, account: Account)
        ensures
            old(self).account_ready_handled(*final(self), account),
    {
        let ghost start = *self;
        let account_id = account.id.clone();
        let ghost id = account_id.0@;
        let _gone = self.unavailable_accounts.remove(&account_id);
        let current = self.current_account_id.is_none() || is_text(
            &self.settings.global.last_account_id,
            &account_id.0,
        );
        place_in_settings(&mut self.accounts, &mut self.settings.global, account);
        self.auth = AuthState::Authenticated;
        if current {
            self.current_account_id = Some(account_id.clone());
        }
        self.ask_when_ready(&account_id, current);
        let ghost middle = *self;
        assert(middle.asked(start, start.ready_asks(id)));
        self.ask_mail_when_ready(&account_id);
        proof {
            AviaryApp::lemma_asked(start, middle, *self, start.ready_asks(id), middle.ready_mail_asks(id));
        }
    }
}

} // verus!
