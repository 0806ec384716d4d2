//! The reading pane: what it shows, and earlier mail of the sender.
use crate::app::{drop_account, other_account};
use crate::headers::{appended, dedup_append};
use crate::lists::{first_index, map_each, position_where, take_list};
use crate::model::{AccountId, Contact, MessageHeader, MessageHeaderView};
use crate::settings::{email_of, extract_email, Settings};
use crate::state::{
    AviaryApp, Effect, EffectView, Message, MessageView, SenderHistoryState, SenderHistoryStateView,
    ThreadBodyState, ThreadBodyStateView, ViewerState, ViewerTab, ViewerTabView,
};
use vstd::prelude::*;

verus! {

impl SenderHistoryStateView {
    /// The sender whose mail is shown or was asked for.
    pub open spec fn email(self) -> Option<Seq<char>> {
        match self {
            SenderHistoryStateView::Idle => None,
            SenderHistoryStateView::Loading { email } => Some(email),
            SenderHistoryStateView::Loaded { email, .. } => Some(email),
        }
    }
}

impl SenderHistoryState {
    /// The sender whose mail is shown or was asked for.
    pub fn email(&self) -> (email: Option<&str>)
        ensures
            email.deep_view() == self.deep_view().email(),
    {
        match self {
            SenderHistoryState::Idle => None,
            SenderHistoryState::Loading { email } => Some(email.as_str()),
            SenderHistoryState::Loaded { email, .. } => Some(email.as_str()),
        }
    }
}

/// Title of the pane below the reading pane.
#[derive(Debug, PartialEq, Eq)]
pub enum HistoryTitle {
    Plain,
    For { email: String },
}

/// What the pane below the reading pane shows.
#[derive(Debug, PartialEq, Eq)]
pub enum HistoryBody {
    SelectMessage,
    LoadingFor { email: String },
    /// Rows of the messages; with more to come, whether it is being loaded.
    Rows { messages: Vec<MessageHeader>, more: Option<bool> },
}

/// Mathematical form of [`HistoryBody`].
#[verifier::ext_equal]
pub enum HistoryBodyView {
    SelectMessage,
    LoadingFor { email: Seq<char> },
    Rows { messages: Seq<MessageHeaderView>, more: Option<bool> },
}

impl DeepView for HistoryBody {
    type V = HistoryBodyView;

    open spec fn deep_view(&self) -> HistoryBodyView {
        match self {
            HistoryBody::SelectMessage => HistoryBodyView::SelectMessage,
            HistoryBody::LoadingFor { email } => HistoryBodyView::LoadingFor { email: email@ },
            HistoryBody::Rows { messages, more } => HistoryBodyView::Rows {
                messages: messages.deep_view(),
                more: *more,
            },
        }
    }
}

/// What the pane shows for a state of the history.
pub open spec fn history_body(state: SenderHistoryStateView) -> HistoryBodyView {
    match state {
        SenderHistoryStateView::Idle => HistoryBodyView::SelectMessage,
        SenderHistoryStateView::Loading { email } => HistoryBodyView::LoadingFor { email },
        SenderHistoryStateView::Loaded { messages, next, loading_more, .. } => HistoryBodyView::Rows {
            messages,
            more: if next is Some {
                Some(loading_more)
            } else {
                None
            },
        },
    }
}

/// A message after `f`, in a tab of the reading pane.
pub open spec fn in_tab(f: spec_fn(MessageView) -> MessageView) -> spec_fn(ViewerTabView) -> ViewerTabView {
    |tab: ViewerTabView|
        match tab {
            ViewerTabView::Message { message } => ViewerTabView::Message { message: f(message) },
            other => other,
        }
}

/// A message after `f`, among the older messages of a conversation.
pub open spec fn in_body(f: spec_fn(MessageView) -> MessageView) -> spec_fn(
    (Seq<char>, ThreadBodyStateView),
) -> (Seq<char>, ThreadBodyStateView) {
    |entry: (Seq<char>, ThreadBodyStateView)|
        match entry.1 {
            ThreadBodyStateView::Loaded { message } => (
                entry.0,
                ThreadBodyStateView::Loaded { message: f(message) },
            ),
            ThreadBodyStateView::Error { error } => entry,
        }
}

/// A message after `f`, where there is one.
pub open spec fn in_selected(selected: Option<MessageView>, f: spec_fn(MessageView) -> MessageView) -> Option<
    MessageView,
> {
    match selected {
        Some(message) => Some(f(message)),
        None => None,
    }
}

/// Changes the selected message.
pub(crate) fn map_selected<F: Fn(Message) -> Message>(
    selected: &mut Option<Message>,
    f: F,
    Ghost(spec_f): Ghost<spec_fn(MessageView) -> MessageView>,
)
    requires
        forall|x: Message| call_requires(f, (x,)),
        forall|x: Message, y: Message| call_ensures(f, (x,), y) ==> y.deep_view() == spec_f(x.deep_view()),
    ensures
        final(selected).deep_view() == in_selected(old(selected).deep_view(), spec_f),
{
    match selected.take() {
        Some(message) => {
            *selected = Some(f(message));
        },
        None => {},
    }
}

/// Changes the messages in the tabs.
pub(crate) fn map_tabs<F: Fn(Message) -> Message>(
    tabs: &mut Vec<ViewerTab>,
    f: F,
    Ghost(spec_f): Ghost<spec_fn(MessageView) -> MessageView>,
)
    requires
        forall|x: Message| call_requires(f, (x,)),
        forall|x: Message, y: Message| call_ensures(f, (x,), y) ==> y.deep_view() == spec_f(x.deep_view()),
    ensures
        final(tabs).deep_view() == old(tabs).deep_view().map_values(in_tab(spec_f)),
{
    let taken = take_list(tabs);
    *tabs = map_each(
        taken,
        |tab: ViewerTab| -> (mapped: ViewerTab)
            ensures
                mapped.deep_view() == in_tab(spec_f)(tab.deep_view())
            {
            match tab {
                ViewerTab::Message { message } => ViewerTab::Message { message: f(message) },
                other => other,
            }
        },
        Ghost(in_tab(spec_f)),
    );
}

/// Changes the older messages of a conversation.
pub(crate) fn map_bodies<F: Fn(Message) -> Message>(
    bodies: &mut Vec<(String, ThreadBodyState)>,
    f: F,
    Ghost(spec_f): Ghost<spec_fn(MessageView) -> MessageView>,
)
    requires
        forall|x: Message| call_requires(f, (x,)),
        forall|x: Message, y: Message| call_ensures(f, (x,), y) ==> y.deep_view() == spec_f(x.deep_view()),
    ensures
        final(bodies).deep_view() == old(bodies).deep_view().map_values(in_body(spec_f)),
{
    let taken = take_list(bodies);
    *bodies = map_each(
        taken,
        |entry: (String, ThreadBodyState)| -> (mapped: (String, ThreadBodyState))
            ensures
                mapped.deep_view() == in_body(spec_f)(entry.deep_view())
            {
            match entry.1 {
                ThreadBodyState::Loaded { message } => (entry.0, ThreadBodyState::Loaded { message: f(message) }),
                ThreadBodyState::Error { error } => (entry.0, ThreadBodyState::Error { error }),
            }
        },
        Ghost(in_body(spec_f)),
    );
}

/// Whether an entry has the given key.
pub open spec fn keyed<V>(key: Seq<char>) -> spec_fn((Seq<char>, V)) -> bool {
    |entry: (Seq<char>, V)| entry.0 == key
}

/// `entries` with `value` for `key`: in place of the first entry of the key, or behind all.
pub open spec fn entry_set<V>(entries: Seq<(Seq<char>, V)>, key: Seq<char>, value: V) -> Seq<(Seq<char>, V)> {
    match first_index(entries, keyed::<V>(key)) {
        Some(i) => entries.update(i, (key, value)),
        None => entries.push((key, value)),
    }
}

/// Sets the value of a key.
pub(crate) fn set_entry<T: DeepView>(entries: &mut Vec<(String, T)>, key: String, value: T)
    ensures
        final(entries).deep_view() == entry_set(old(entries).deep_view(), key@, value.deep_view()),
{
    let ghost before = entries.deep_view();
    let ghost shown = value.deep_view();
    let found = position_where(
        &*entries,
        |entry: &(String, T)| -> (same: bool)
            ensures
                same == keyed::<T::V>(key@)(entry.deep_view())
            { entry.0 == key },
        Ghost(keyed::<T::V>(key@)),
    );
    match found {
        Some(i) => {
            entries.set(i, (key, value));
            assert(entries.deep_view() =~= before.update(i as int, (key@, shown)));
        },
        None => {
            entries.push((key, value));
            assert(entries.deep_view() =~= before.push((key@, shown)));
        },
    }
}

/// The message that the reading pane shows.
pub open spec fn displayed_in(viewer: ViewerState) -> Option<MessageView> {
    match viewer.active_tab {
        Some(i) => if i < viewer.open_tabs.len() {
            match viewer.open_tabs.deep_view()[i as int] {
                ViewerTabView::Message { message } => Some(message),
                _ => None,
            }
        } else {
            None
        },
        None => viewer.selected.deep_view(),
    }
}

/// Sender of a message on display.
pub open spec fn sender_of(message: Option<MessageView>) -> Option<Seq<char>> {
    match message {
        Some(message) => email_of(message.header.from),
        None => None,
    }
}

/// The history that belongs to what is on display, while its pane is open: it is kept if
/// it is of the sender on display, given up where there is no sender, and asked for
/// otherwise.
pub open spec fn history_for(viewer: ViewerState, current: SenderHistoryStateView) -> SenderHistoryStateView {
    match sender_of(displayed_in(viewer)) {
        None => SenderHistoryStateView::Idle,
        Some(email) => if current.email() == Some(email) {
            current
        } else {
            SenderHistoryStateView::Loading { email }
        },
    }
}

/// The request that brings the history up to what is on display.
pub open spec fn history_request(viewer: ViewerState, current: SenderHistoryStateView, settings: Settings) -> Seq<
    EffectView,
> {
    match (displayed_in(viewer), sender_of(displayed_in(viewer))) {
        (Some(message), Some(email)) if current.email() != Some(email) => seq![
            EffectView::LoadSenderHistory {
                account_id: message.header.account_id,
                email,
                limit: settings.account_view(message.header.account_id).sender_history_limit,
            },
        ],
        _ => Seq::empty(),
    }
}

impl AviaryApp {
    /// The message that the reading pane shows.
    pub open spec fn displayed(self) -> Option<MessageView> {
        displayed_in(self.mailbox.viewer)
    }

    /// The message that the reading pane shows: that of the active tab, or the
    /// selected one while no tab is active.
    pub fn displayed_message(&self) -> (message: Option<&Message>)
        ensures
            message.deep_view() == self.displayed(),
    {
        match self.mailbox.viewer.active_tab {
            Some(i) => if i < self.mailbox.viewer.open_tabs.len() {
                assert(self.mailbox.viewer.open_tabs.deep_view()[i as int]
                    == self.mailbox.viewer.open_tabs[i as int].deep_view());
                match &self.mailbox.viewer.open_tabs[i] {
                    ViewerTab::Message { message } => Some(message),
                    _ => None,
                }
            } else {
                None
            },
            None => match &self.mailbox.viewer.selected {
                Some(message) => Some(message),
                None => None,
            },
        }
    }

    /// The history after it was brought up to what is on display.
    pub open spec fn history_after(self) -> SenderHistoryStateView {
        if self.sender_history_expanded {
            history_for(self.mailbox.viewer, self.sender_history.deep_view())
        } else {
            self.sender_history.deep_view()
        }
    }

    /// The request that brings the history up to what is on display.
    pub open spec fn history_asks(self) -> Seq<EffectView> {
        if self.sender_history_expanded {
            history_request(self.mailbox.viewer, self.sender_history.deep_view(), self.settings)
        } else {
            Seq::empty()
        }
    }

    /// Loads the history of the sender on display, while its pane is open. A result that
    /// is there or on its way for the same sender is kept.
    pub fn refresh_sender_history_for_displayed(&mut self)
        ensures
            final(self).sender_history.deep_view() == old(self).history_after(),
            final(self).asked(*old(self), old(self).history_asks()),
            *final(self) == (AviaryApp {
                sender_history: final(self).sender_history,
                effects: final(self).effects,
                ..*old(self)
            }),
    {
        assert(self.effects.deep_view() + Seq::<EffectView>::empty() =~= self.effects.deep_view());
        if !self.sender_history_expanded {
            return;
        }
        let found: Option<(AccountId, String)> = match self.displayed_message() {
            Some(message) => match extract_email(message.header.from.as_str()) {
                Some(email) => Some((message.header.account_id.clone(), email)),
                None => None,
            },
            None => None,
        };
        match found {
            None => {
                self.sender_history = SenderHistoryState::Idle;
            },
            Some((account_id, email)) => {
                let known = match self.sender_history.email() {
                    Some(current) => crate::text::text_eq(current, email.as_str()),
                    None => false,
                };
                if known {
                    return;
                }
                let limit: usize = self.settings.account_or_default(Some(&account_id)).sender_history_limit;
                self.sender_history = SenderHistoryState::Loading { email: email.clone() };
                self.send(Effect::LoadSenderHistory { account_id, email, limit });
            },
        }
    }

    /// Opens or closes the pane of the history.
    pub fn toggle_sender_history(&mut self)
        ensures
            final(self).sender_history.deep_view() == (AviaryApp {
                sender_history_expanded: !old(self).sender_history_expanded,
                ..*old(self)
            }).history_after(),
            final(self).asked(
                *old(self),
                (AviaryApp {
                    sender_history_expanded: !old(self).sender_history_expanded,
                    ..*old(self)
                }).history_asks(),
            ),
            *final(self) == (AviaryApp {
                sender_history_expanded: !old(self).sender_history_expanded,
                sender_history: final(self).sender_history,
                effects: final(self).effects,
                ..*old(self)
            }),
    {
        self.sender_history_expanded = !self.sender_history_expanded;
        self.refresh_sender_history_for_displayed();
    }

    /// What the pane of the history shows.
    pub fn sender_history_body(&self) -> (body: HistoryBody)
        ensures
            body.deep_view() == history_body(self.sender_history.deep_view()),
    {
        match &self.sender_history {
            SenderHistoryState::Idle => HistoryBody::SelectMessage,
            SenderHistoryState::Loading { email } => HistoryBody::LoadingFor { email: email.clone() },
            SenderHistoryState::Loaded { messages, next, loading_more, .. } => HistoryBody::Rows {
                messages: crate::model::clone_list(messages),
                more: if next.is_some() {
                    Some(*loading_more)
                } else {
                    None
                },
            },
        }
    }

    /// Title of the pane of the history.
    pub fn sender_history_title(&self) -> (title: HistoryTitle)
        ensures
            match (title, self.sender_history.deep_view().email()) {
                (HistoryTitle::For { email }, Some(shown)) => email@ == shown,
                (HistoryTitle::Plain, None) => true,
                _ => false,
            },
    {
        match &self.sender_history {
            SenderHistoryState::Idle => HistoryTitle::Plain,
            SenderHistoryState::Loading { email } => HistoryTitle::For { email: email.clone() },
            SenderHistoryState::Loaded { email, .. } => HistoryTitle::For { email: email.clone() },
        }
    }

    /// Requests for the next page of the history, one for each account on display.
    pub open spec fn more_history(self) -> Seq<EffectView> {
        match self.sender_history.deep_view() {
            SenderHistoryStateView::Loaded { email, next: Some(next_link), .. } => self.active_accounts().map_values(
                |account_id: Seq<char>| EffectView::LoadMoreSenderHistory { account_id, email, next_link },
            ),
            _ => Seq::empty(),
        }
    }

    /// The history while its next page is on its way.
    pub open spec fn history_loading(state: SenderHistoryStateView) -> SenderHistoryStateView {
        match state {
            SenderHistoryStateView::Loaded { email, messages, next: Some(link), .. } => SenderHistoryStateView::Loaded {
                email,
                messages,
                next: Some(link),
                loading_more: true,
            },
            other => other,
        }
    }

    /// Asks for the next page of the history.
    pub fn load_more_sender_history(&mut self)
        ensures
            final(self).sender_history.deep_view() == Self::history_loading(old(self).sender_history.deep_view()),
            final(self).asked(*old(self), old(self).more_history()),
            *final(self) == (AviaryApp {
                sender_history: final(self).sender_history,
                effects: final(self).effects,
                ..*old(self)
            }),
    {
        let accounts = self.active_account_ids();
        let ghost ids = accounts.deep_view();
        let ghost start = *self;
        let request: Option<(String, String)> = match &mut self.sender_history {
            SenderHistoryState::Loaded { email, next, loading_more, .. } => match next {
                Some(next_link) => {
                    *loading_more = true;
                    Some((email.clone(), next_link.clone()))
                },
                None => None,
            },
            _ => None,
        };
        if let Some((email, next_link)) = request {
            let ghost make = |account_id: Seq<char>|
                EffectView::LoadMoreSenderHistory { account_id, email: email@, next_link: next_link@ };
            let ghost marked = *self;
            let mut i: usize = 0;
            assert(ids.take(0).map_values(make) =~= Seq::empty());
            while i < accounts.len()
                invariant
                    i <= accounts.len(),
                    ids == accounts.deep_view(),
                    make == (|account_id: Seq<char>|
                        EffectView::LoadMoreSenderHistory { account_id, email: email@, next_link: next_link@ }),
                    self.asked(marked, ids.take(i as int).map_values(make)),
                    *self == (AviaryApp { effects: self.effects, ..marked }),
                decreases accounts.len() - i,
            {
                assert(ids[i as int] == accounts[i as int].0@);
                assert(ids.take(i + 1).map_values(make) =~= ids.take(i as int).map_values(make) + seq![
                    make(ids[i as int]),
                ]);
                let ghost before = *self;
                self.send(
                    Effect::LoadMoreSenderHistory {
                        account_id: accounts[i].clone(),
                        email: email.clone(),
                        next_link: next_link.clone(),
                    },
                );
                proof {
                    AviaryApp::lemma_asked(
                        marked,
                        before,
                        *self,
                        ids.take(i as int).map_values(make),
                        seq![make(ids[i as int])],
                    );
                }
                i += 1;
            }
            assert(ids.take(ids.len() as int) =~= ids);
            assert(start.more_history() == ids.map_values(make));
        } else {
            assert(self.effects.deep_view() =~= start.effects.deep_view() + Seq::<EffectView>::empty());
        }
    }

    /// What `on_sender_history` does.
    pub open spec fn sender_history_handled(self, after: AviaryApp, email: String, messages: Vec<MessageHeader>, next_link: Option<String>) -> bool {
        if self.sender_history.deep_view().email() == Some(email@) {
            after == (AviaryApp {
                sender_history: SenderHistoryState::Loaded { email, messages, next: next_link, loading_more: false },
                ..self
            })
        } else {
            after == self
        }
    }

    /// The first page of a sender's mail came.
    pub fn on_sender_history(&mut self, email: String, messages: Vec<MessageHeader>, next_link: Option<String>)
        ensures
            old(self).sender_history_handled(*final(self), email, messages, next_link),
    {
        let current = match self.sender_history.email() {
            Some(current) => crate::text::text_eq(current, email.as_str()),
            None => false,
        };
        if current {
            self.sender_history = SenderHistoryState::Loaded { email, messages, next: next_link, loading_more: false };
        }
    }

    /// The history with one page more.
    pub open spec fn history_extended(
        state: SenderHistoryStateView,
        email: Seq<char>,
        more: Seq<MessageHeaderView>,
        next_link: Option<Seq<char>>,
    ) -> SenderHistoryStateView {
        match state {
            SenderHistoryStateView::Loaded { email: current, messages, .. } if current == email =>
                SenderHistoryStateView::Loaded {
                    email,
                    messages: appended(messages, more),
                    next: next_link,
                    loading_more: false,
                },
            other => other,
        }
    }

    /// What `on_sender_history_more` does.
    pub open spec fn sender_history_more_handled(self, after: AviaryApp, email: String, more: Vec<MessageHeader>, next_link: Option<String>) -> bool {
        &&& after.sender_history.deep_view() == Self::history_extended(
            self.sender_history.deep_view(),
            email@,
            more.deep_view(),
            next_link.deep_view(),
        )
        &&& after == (AviaryApp { sender_history: after.sender_history, ..self })
    }

    /// The next page of a sender's mail came.
    pub fn on_sender_history_more(&mut self, email: String, more: Vec<MessageHeader>, next_link: Option<String>)
        ensures
            old(self).sender_history_more_handled(*final(self), email, more, next_link),
    {
        match &mut self.sender_history {
            SenderHistoryState::Loaded { email: current, messages, next, loading_more } => {
                if *current == email {
                    let taken = take_list(messages);
                    *messages = dedup_append(taken, more);
                    *next = next_link;
                    *loading_more = false;
                }
            },
            _ => {},
        }
    }

    /// The history after a request for `email` failed.
    pub open spec fn history_failed(state: SenderHistoryStateView, email: Seq<char>, load_more: bool) -> SenderHistoryStateView {
        match state {
            SenderHistoryStateView::Loaded { email: current, messages, next, .. } if load_more && current == email =>
                SenderHistoryStateView::Loaded { email: current, messages, next, loading_more: false },
            SenderHistoryStateView::Loading { email: current } if !load_more && current == email =>
                SenderHistoryStateView::Idle,
            other => other,
        }
    }

    /// What `on_sender_history_error` does.
    pub open spec fn sender_history_error_handled(self, after: AviaryApp, email: String, is_load_more: bool) -> bool {
        &&& after.sender_history.deep_view() == Self::history_failed(
            self.sender_history.deep_view(),
            email@,
            is_load_more,
        )
        &&& after == (AviaryApp { sender_history: after.sender_history, ..self })
    }

    /// A request for a sender's mail failed: a first page can be asked for again, a
    /// further page leaves what is there.
    pub fn on_sender_history_error(&mut self, email: String, is_load_more: bool)
        ensures
            old(self).sender_history_error_handled(*final(self), email, is_load_more),
    {
        let mut give_up = false;
        match &mut self.sender_history {
            SenderHistoryState::Loaded { email: current, loading_more, .. } => {
                if is_load_more && *current == email {
                    *loading_more = false;
                }
            },
            SenderHistoryState::Loading { email: current } => {
                if !is_load_more && *current == email {
                    give_up = true;
                }
            },
            SenderHistoryState::Idle => {},
        }
        if give_up {
            self.sender_history = SenderHistoryState::Idle;
        }
    }

    /// What `on_contacts` does.
    pub open spec fn contacts_handled(self, after: AviaryApp, account_id: AccountId, contacts: Vec<Contact>) -> bool {
        &&& after.contacts.by_account@ == self.contacts.by_account@.insert(account_id.0@, contacts)
        &&& after.contacts.loading_accounts.deep_view() == self.contacts.loading_accounts.deep_view().filter(
            other_account(account_id.0@),
        )
        &&& after.asked(
            self,
            seq![EffectView::MergeContacts { account_id: account_id.0@ }, EffectView::RefreshContacts],
        )
        &&& after == (AviaryApp { contacts: after.contacts, effects: after.effects, ..self })
    }

    /// The address book of an account came.
    pub fn on_contacts(&mut self, account_id: AccountId, contacts: Vec<Contact>)
        ensures
            old(self).contacts_handled(*final(self), account_id, contacts),
    {
        self.send(Effect::MergeContacts { account_id: account_id.clone() });
        drop_account(&mut self.contacts.loading_accounts, &account_id);
        self.contacts.by_account.insert(account_id, contacts);
        self.send(Effect::RefreshContacts);
        assert(self.effects.deep_view() =~= old(self).effects.deep_view() + seq![
            EffectView::MergeContacts { account_id: account_id.0@ },
            EffectView::RefreshContacts,
        ]);
    }
}

/// A request of the history ends the same way whoever was asked first: a page for a
/// sender that is no longer on display changes nothing.
pub proof fn law_history_is_of_one_sender(
    state: SenderHistoryStateView,
    email: Seq<char>,
    more: Seq<MessageHeaderView>,
    next_link: Option<Seq<char>>,
    load_more: bool,
)
    requires
        state.email() != Some(email),
    ensures
        AviaryApp::history_extended(state, email, more, next_link) == state,
        AviaryApp::history_failed(state, email, load_more) == state,
{
}

} // verus!
