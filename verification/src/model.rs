//! Accounts, messages, folders and tags as the library sees them.
//!
//! Every type has a mathematical form, its deep view, in which texts are
//! sequences of characters and lists are sequences; contracts are stated over
//! these forms. Instants are nanoseconds since the Unix epoch.
use vstd::prelude::*;

verus! {

/// A copy of a list, element by element.
pub(crate) fn clone_list<T: DeepView + Clone>(items: &Vec<T>) -> (copy: Vec<T>)
    requires
        forall|x: &T, y: T| #[trigger] call_ensures(T::clone, (x,), y) ==> y.deep_view() == x.deep_view(),
    ensures
        copy.deep_view() == items.deep_view(),
{
    let copy = items.clone();
    assert forall|i: int| 0 <= i < items.len() implies (#[trigger] copy[i]).deep_view() == items[i].deep_view() by {
        assert(cloned::<T>(items[i], copy[i]));
    }
    assert(copy.deep_view() =~= items.deep_view());
    copy
}


/// A copy of bytes that may be there.
pub(crate) fn clone_bytes_option(bytes: &Option<Vec<u8>>) -> (copy: Option<Vec<u8>>)
    ensures
        copy.deep_view() == bytes.deep_view(),
{
    match bytes {
        Some(bytes) => Some(clone_list(bytes)),
        None => None,
    }
}

/// Identity of a mail account.
#[derive(Debug, Eq, Hash)]
pub struct AccountId(pub String);

impl DeepView for AccountId {
    type V = Seq<char>;

    open spec fn deep_view(&self) -> Seq<char> {
        self.0@
    }
}

impl Clone for AccountId {
    fn clone(&self) -> (copy: Self)
        ensures
            copy.deep_view() == self.deep_view(),
            copy == *self,
    {
        AccountId(self.0.clone())
    }
}

impl PartialEq for AccountId {
    fn eq(&self, other: &AccountId) -> (same: bool) {
        self.0 == other.0
    }
}

impl vstd::std_specs::cmp::PartialEqSpecImpl for AccountId {
    open spec fn obeys_eq_spec() -> bool {
        true
    }

    open spec fn eq_spec(&self, other: &AccountId) -> bool {
        self.0@ == other.0@
    }
}

/// What was last done in answer to a message.
#[derive(Debug, Clone, Copy, PartialEq, Eq, Structural)]
pub enum LastAction {
    Replied,
    RepliedAll,
    Forwarded,
}

impl DeepView for LastAction {
    type V = LastAction;

    open spec fn deep_view(&self) -> LastAction {
        *self
    }
}

/// Service that hosts an account.
#[derive(Debug, Clone, Copy, PartialEq, Eq, Structural)]
pub enum Provider {
    Microsoft,
    Google,
    Imap,
}

impl DeepView for Provider {
    type V = Provider;

    open spec fn deep_view(&self) -> Provider {
        *self
    }
}

impl Default for Provider {
    fn default() -> (value: Self)
        ensures
            value == Provider::Microsoft,
    {
        Provider::Microsoft
    }
}

/// A message named by its account and its id in that account.
#[derive(Debug, Eq, Hash)]
pub struct MessageRef {
    pub account_id: AccountId,
    pub id: String,
}

/// Mathematical form of [`MessageRef`].
#[verifier::ext_equal]
pub struct MessageRefView {
    pub account_id: Seq<char>,
    pub id: Seq<char>,
}

impl DeepView for MessageRef {
    type V = MessageRefView;

    open spec fn deep_view(&self) -> MessageRefView {
        MessageRefView {
            account_id: self.account_id.deep_view(),
            id: self.id.deep_view(),
        }
    }
}

impl Clone for MessageRef {
    fn clone(&self) -> (copy: Self)
        ensures
            copy.deep_view() == self.deep_view(),
    {
        MessageRef {
            account_id: self.account_id.clone(),
            id: self.id.clone(),
        }
    }
}

impl PartialEq for MessageRef {
    fn eq(&self, other: &MessageRef) -> (same: bool) {
        self.account_id == other.account_id && self.id == other.id
    }
}

impl vstd::std_specs::cmp::PartialEqSpecImpl for MessageRef {
    open spec fn obeys_eq_spec() -> bool {
        true
    }

    open spec fn eq_spec(&self, other: &MessageRef) -> bool {
        self.deep_view() == other.deep_view()
    }
}

/// What the list shows of a message.
#[derive(Debug, PartialEq, Eq)]
pub struct MessageHeader {
    pub id: String,
    pub account_id: AccountId,
    pub subject: String,
    pub from: String,
    pub received: i128,
    pub preview: String,
    pub is_read: bool,
    pub is_flagged: bool,
    pub has_attachments: bool,
    pub tags: Vec<String>,
    pub last_action: Option<LastAction>,
    pub last_action_at: Option<i128>,
    pub conversation_id: Option<String>,
    pub internet_message_id: Option<String>,
}

/// Mathematical form of [`MessageHeader`].
#[verifier::ext_equal]
pub struct MessageHeaderView {
    pub id: Seq<char>,
    pub account_id: Seq<char>,
    pub subject: Seq<char>,
    pub from: Seq<char>,
    pub received: i128,
    pub preview: Seq<char>,
    pub is_read: bool,
    pub is_flagged: bool,
    pub has_attachments: bool,
    pub tags: Seq<Seq<char>>,
    pub last_action: Option<LastAction>,
    pub last_action_at: Option<i128>,
    pub conversation_id: Option<Seq<char>>,
    pub internet_message_id: Option<Seq<char>>,
}

impl DeepView for MessageHeader {
    type V = MessageHeaderView;

    open spec fn deep_view(&self) -> MessageHeaderView {
        MessageHeaderView {
            id: self.id.deep_view(),
            account_id: self.account_id.deep_view(),
            subject: self.subject.deep_view(),
            from: self.from.deep_view(),
            received: self.received,
            preview: self.preview.deep_view(),
            is_read: self.is_read,
            is_flagged: self.is_flagged,
            has_attachments: self.has_attachments,
            tags: self.tags.deep_view(),
            last_action: self.last_action,
            last_action_at: self.last_action_at,
            conversation_id: self.conversation_id.deep_view(),
            internet_message_id: self.internet_message_id.deep_view(),
        }
    }
}

impl Clone for MessageHeader {
    fn clone(&self) -> (copy: Self)
        ensures
            copy.deep_view() == self.deep_view(),
    {
        MessageHeader {
            id: self.id.clone(),
            account_id: self.account_id.clone(),
            subject: self.subject.clone(),
            from: self.from.clone(),
            received: self.received,
            preview: self.preview.clone(),
            is_read: self.is_read,
            is_flagged: self.is_flagged,
            has_attachments: self.has_attachments,
            tags: crate::model::clone_list(&self.tags),
            last_action: self.last_action,
            last_action_at: self.last_action_at,
            conversation_id: self.conversation_id.clone(),
            internet_message_id: self.internet_message_id.clone(),
        }
    }
}

impl MessageHeaderView {
    /// The name of the message.
    pub open spec fn reference(self) -> MessageRefView {
        MessageRefView { account_id: self.account_id, id: self.id }
    }

    /// The conversation that the message belongs to, if any.
    pub open spec fn conversation(self) -> Option<(Seq<char>, Seq<char>)> {
        match self.conversation_id {
            Some(conversation) => Some((self.account_id, conversation)),
            None => None,
        }
    }
}

impl MessageHeader {
    /// The name of the message.
    pub fn reference(&self) -> (reference: MessageRef)
        ensures
            reference.deep_view() == self.deep_view().reference(),
    {
        MessageRef { account_id: self.account_id.clone(), id: self.id.clone() }
    }

    /// Whether this is the message that `reference` names.
    pub fn is(&self, reference: &MessageRef) -> (named: bool)
        ensures
            named == (self.deep_view().reference() == reference.deep_view()),
    {
        self.account_id == reference.account_id && self.id == reference.id
    }
}

/// A folder of an account.
#[derive(Debug, PartialEq, Eq)]
pub struct MailFolder {
    pub id: String,
    pub display_name: String,
    pub parent_id: Option<String>,
    pub well_known_name: Option<String>,
    pub total_item_count: u32,
    pub unread_item_count: u32,
}

/// Mathematical form of [`MailFolder`].
#[verifier::ext_equal]
pub struct MailFolderView {
    pub id: Seq<char>,
    pub display_name: Seq<char>,
    pub parent_id: Option<Seq<char>>,
    pub well_known_name: Option<Seq<char>>,
    pub total_item_count: u32,
    pub unread_item_count: u32,
}

impl DeepView for MailFolder {
    type V = MailFolderView;

    open spec fn deep_view(&self) -> MailFolderView {
        MailFolderView {
            id: self.id.deep_view(),
            display_name: self.display_name.deep_view(),
            parent_id: self.parent_id.deep_view(),
            well_known_name: self.well_known_name.deep_view(),
            total_item_count: self.total_item_count,
            unread_item_count: self.unread_item_count,
        }
    }
}

impl Clone for MailFolder {
    fn clone(&self) -> (copy: Self)
        ensures
            copy.deep_view() == self.deep_view(),
    {
        MailFolder {
            id: self.id.clone(),
            display_name: self.display_name.clone(),
            parent_id: self.parent_id.clone(),
            well_known_name: self.well_known_name.clone(),
            total_item_count: self.total_item_count,
            unread_item_count: self.unread_item_count,
        }
    }
}
/// A category or label of an account.
#[derive(Debug, PartialEq, Eq)]
pub struct Tag {
    pub id: String,
    pub display_name: String,
    pub color: Option<u32>,
}

/// Mathematical form of [`Tag`].
#[verifier::ext_equal]
pub struct TagView {
    pub id: Seq<char>,
    pub display_name: Seq<char>,
    pub color: Option<u32>,
}

impl DeepView for Tag {
    type V = TagView;

    open spec fn deep_view(&self) -> TagView {
        TagView {
            id: self.id.deep_view(),
            display_name: self.display_name.deep_view(),
            color: self.color,
        }
    }
}

impl Clone for Tag {
    fn clone(&self) -> (copy: Self)
        ensures
            copy.deep_view() == self.deep_view(),
    {
        Tag {
            id: self.id.clone(),
            display_name: self.display_name.clone(),
            color: self.color,
        }
    }
}
/// An address book entry.
#[derive(Debug, PartialEq, Eq)]
pub struct Contact {
    pub name: String,
    pub email: String,
}

/// Mathematical form of [`Contact`].
#[verifier::ext_equal]
pub struct ContactView {
    pub name: Seq<char>,
    pub email: Seq<char>,
}

impl DeepView for Contact {
    type V = ContactView;

    open spec fn deep_view(&self) -> ContactView {
        ContactView {
            name: self.name.deep_view(),
            email: self.email.deep_view(),
        }
    }
}

impl Clone for Contact {
    fn clone(&self) -> (copy: Self)
        ensures
            copy.deep_view() == self.deep_view(),
    {
        Contact {
            name: self.name.clone(),
            email: self.email.clone(),
        }
    }
}
/// A configured account.
#[derive(Debug, PartialEq, Eq)]
pub struct Account {
    pub id: AccountId,
    pub provider: Provider,
    pub display_name: String,
    pub email: String,
}

/// Mathematical form of [`Account`].
#[verifier::ext_equal]
pub struct AccountView {
    pub id: Seq<char>,
    pub provider: Provider,
    pub display_name: Seq<char>,
    pub email: Seq<char>,
}

impl DeepView for Account {
    type V = AccountView;

    open spec fn deep_view(&self) -> AccountView {
        AccountView {
            id: self.id.deep_view(),
            provider: self.provider,
            display_name: self.display_name.deep_view(),
            email: self.email.deep_view(),
        }
    }
}

impl Clone for Account {
    fn clone(&self) -> (copy: Self)
        ensures
            copy.deep_view() == self.deep_view(),
    {
        Account {
            id: self.id.clone(),
            provider: self.provider,
            display_name: self.display_name.clone(),
            email: self.email.clone(),
        }
    }
}

} // verus!
