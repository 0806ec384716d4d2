//! What events of accounts, of address books and of a sender's earlier mail mean.
use crate::dispatch::{AccountEvt, ContactEvt, Evt};
use crate::lists::lemma_first_index;
use crate::mail_laws::{each_once, lemma_appending, lemma_kept, lemma_sorted, lists};
use crate::model::{Account, AccountId, AccountView, Contact, MessageHeader, Provider};
use crate::state::{AuthState, AviaryApp, EffectView, MainView, SenderHistoryState, SenderHistoryStateView};
use vstd::prelude::*;

verus! {

/// An account that is ready is one of the accounts, no other goes and no other comes, and it
/// is no longer known to have failed. The user is signed in. It becomes the current account
/// if there was none or if it was the last one used, and not otherwise. Its mail is asked for
/// where mail is shown.
pub proof fn law_ready_accounts_are_there(before: AviaryApp, after: AviaryApp, account: Account)
    requires
        before.event_done(after, Evt::Account(AccountEvt::AccountReady { account })),
    ensures
        ({
            let came = account.deep_view();
            let was = before.accounts.deep_view();
            let now = after.accounts.deep_view();
            &&& now.contains(came)
            &&& forall|x: AccountView| x.id != came.id ==> (#[trigger] now.contains(x) <==> was.contains(x))
            &&& !after.unavailable_accounts@.contains_key(came.id)
            &&& forall|id: Seq<char>|
                id != came.id ==> #[trigger] after.unavailable_accounts@.contains_key(id)
                    == before.unavailable_accounts@.contains_key(id)
            &&& after.auth == AuthState::Authenticated
            &&& before.current_account_id is None || before.settings.global.last_account_id.deep_view() == Some(came.id)
                ==> after.current_account_id.deep_view() == Some(came.id)
            &&& before.current_account_id is Some && before.settings.global.last_account_id.deep_view() != Some(came.id)
                ==> after.current_account_id.deep_view() == before.current_account_id.deep_view()
            &&& before.view == MainView::Mail ==> after.effects.deep_view().contains(
                EffectView::LoadFolders { account_id: came.id },
            )
            &&& after.mailbox == before.mailbox
        }),
{
    let came = account.deep_view();
    let was = before.accounts.deep_view();
    let now = after.accounts.deep_view();
    let order = crate::account_events::order_with(before.settings.global.account_order.deep_view(), came.id);
    let p = crate::app::account_named(came.id);
    lemma_first_index(was, p);
    let placed = match crate::lists::first_index(was, p) {
        Some(i) => was.update(i, came),
        None => was.push(came),
    };
    lemma_sorted(was.push(came), crate::account_events::account_rank(order));
    match crate::lists::first_index(was, p) {
        Some(i) => {
            assert(placed[i] == came);
            assert(now == placed);
        },
        None => {
            assert(placed[was.len() as int] == came);
        },
    }
    assert(placed.contains(came));
    assert forall|x: AccountView| x.id != came.id implies (#[trigger] now.contains(x) <==> was.contains(x)) by {
        assert(now.contains(x) <==> placed.contains(x));
        if was.contains(x) {
            let k = choose|k: int| 0 <= k < was.len() && was[k] == x;
            assert(placed[k] == x);
        }
        if placed.contains(x) {
            let k = choose|k: int| 0 <= k < placed.len() && placed[k] == x;
            assert(was[k] == x);
        }
    }
    if before.view == MainView::Mail {
        let effects = after.effects.deep_view();
        let n = before.effects.deep_view().len() as int;
        let first = before.ready_asks(came.id);
        let then_asked = before.ready_mail_asks(came.id);
        let k: int = if before.lacks_tags(came.id) {
            1
        } else {
            0
        };
        assert(then_asked[k] == (EffectView::LoadFolders { account_id: came.id }));
        assert(effects[n + first.len() + k] == then_asked[k]);
    }
}

/// An account that could not be brought back is known to have failed, with its provider and
/// the reason; the others are as they were.
pub proof fn law_failed_accounts_are_known(
    before: AviaryApp,
    after: AviaryApp,
    account_id: AccountId,
    provider: Provider,
    error: String,
)
    requires
        before.event_done(after, Evt::Account(AccountEvt::AccountRestoreFailed { account_id, provider, error })),
    ensures
        after.unavailable_accounts@.contains_key(account_id.0@),
        after.unavailable_accounts@[account_id.0@] == (provider, error),
        forall|id: Seq<char>|
            id != account_id.0@ ==> #[trigger] after.unavailable_accounts@.contains_key(id)
                == before.unavailable_accounts@.contains_key(id),
        after.accounts == before.accounts,
        after.effects == before.effects,
{
}

/// Signing in waits for the code that is to be entered, or for the page that was opened.
pub proof fn law_signing_in_shows_what_to_do(
    before: AviaryApp,
    after: AviaryApp,
    user_code: String,
    verification_uri: String,
)
    requires
        before.event_done(after, Evt::Account(AccountEvt::DeviceCode { user_code, verification_uri })),
    ensures
        after.auth == (AuthState::AwaitingCode { user_code, verification_uri }),
        after.accounts == before.accounts,
{
}

/// An address book that came is that of its account, which no longer waits for it; those of
/// others stay.
pub proof fn law_contacts_are_those_that_came(
    before: AviaryApp,
    after: AviaryApp,
    account_id: AccountId,
    contacts: Vec<Contact>,
)
    requires
        before.event_done(after, Evt::Contact(ContactEvt::Contacts { account_id, contacts })),
    ensures
        after.contacts.by_account@.contains_key(account_id.0@),
        after.contacts.by_account@[account_id.0@] == contacts,
        forall|id: Seq<char>|
            id != account_id.0@ ==> #[trigger] after.contacts.by_account@.contains_key(id)
                == before.contacts.by_account@.contains_key(id) && (after.contacts.by_account@.contains_key(id)
                ==> after.contacts.by_account@[id] == before.contacts.by_account@[id]),
        forall|id: Seq<char>| #[trigger]
            after.contacts.loading_accounts.deep_view().contains(id)
                <==> before.contacts.loading_accounts.deep_view().contains(id) && id != account_id.0@,
        after.effects.deep_view().contains(EffectView::MergeContacts { account_id: account_id.0@ }),
{
    lemma_kept(before.contacts.loading_accounts.deep_view(), crate::app::other_account(account_id.0@));
    assert(after.effects.deep_view()[before.effects.deep_view().len() as int] == (EffectView::MergeContacts {
        account_id: account_id.0@,
    }));
}

/// The earlier mail of a sender is shown if that sender is still the one asked for; mail of
/// another sender changes nothing.
pub proof fn law_history_shows_the_sender_asked_for(
    before: AviaryApp,
    after: AviaryApp,
    account_id: AccountId,
    email: String,
    messages: Vec<MessageHeader>,
    next_link: Option<String>,
)
    requires
        before.event_done(
            after,
            Evt::Contact(ContactEvt::SenderHistory { account_id, email, messages, next_link }),
        ),
    ensures
        ({
            let asked = match before.sender_history {
                SenderHistoryState::Idle => false,
                SenderHistoryState::Loading { email: shown } => shown@ == email@,
                SenderHistoryState::Loaded { email: shown, .. } => shown@ == email@,
            };
            &&& asked ==> after.sender_history == (SenderHistoryState::Loaded {
                email,
                messages,
                next: next_link,
                loading_more: false,
            })
            &&& !asked ==> after == before
        }),
        after.mailbox == before.mailbox,
{
}

/// A further page of that mail comes behind what is there, each message once, and the next
/// page is the one that it names.
pub proof fn law_further_history_comes_behind(
    before: AviaryApp,
    after: AviaryApp,
    account_id: AccountId,
    email: String,
    more: Vec<MessageHeader>,
    next_link: Option<String>,
)
    requires
        before.event_done(after, Evt::Contact(ContactEvt::SenderHistoryMore { account_id, email, more, next_link })),
    ensures
        match (before.sender_history.deep_view(), after.sender_history.deep_view()) {
            (
                SenderHistoryStateView::Loaded { email: shown, messages: was, .. },
                SenderHistoryStateView::Loaded { email: kept, messages: now, next, loading_more },
            ) => if shown == email@ {
                let page = more.deep_view();
                &&& kept == shown
                &&& was.is_prefix_of(now)
                &&& forall|i: int| 0 <= i < page.len() ==> lists(now, (#[trigger] page[i]).reference())
                &&& forall|i: int| was.len() <= i < now.len() ==> page.contains(#[trigger] now[i])
                &&& each_once(was) ==> each_once(now)
                &&& next == next_link.deep_view()
                &&& !loading_more
            } else {
                after.sender_history.deep_view() == before.sender_history.deep_view()
            },
            (was, now) => now == was,
        },
{
    match before.sender_history.deep_view() {
        SenderHistoryStateView::Loaded { messages, .. } => {
            lemma_appending(messages, more.deep_view());
        },
        _ => {},
    }
}

} // verus!
