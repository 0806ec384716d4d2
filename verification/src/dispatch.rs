//! Events of the runtime: which of them matter, and who handles them.
use crate::app::told;
use crate::bulk_events::BulkReply;
use crate::model::{Account, AccountId, Contact, LastAction, MailFolder, MessageHeader, Provider, Tag};
use crate::recipes::QuotedMail;
use crate::state::{
    AuthState, AviaryApp, CalendarEvent, CacheStats, Effect, EffectView, InvitationResponse, MailboxState, MainView, Message,
    MutationKind, PaginationState, QuickActionExecution, SentMessage, ToastKind,
};
use vstd::prelude::*;

verus! {

/// Events of the list, of messages, of conversations and of the search.
#[allow(inconsistent_fields)]
#[derive(Debug)]
pub enum MailEvt {
    Messages { account_id: AccountId, messages: Vec<MessageHeader> },
    ConversationTotals { account_id: AccountId, folder_id: Option<String>, totals: Vec<(String, usize)> },
    CachedMessages { account_id: AccountId, folder_id: Option<String>, messages: Vec<MessageHeader> },
    MoreMessages { account_id: AccountId, messages: Vec<MessageHeader>, has_more: bool },
    UnifiedMessages { request_id: u64, messages: Vec<MessageHeader>, has_more: bool },
    UnifiedCachedMessages { request_id: u64, messages: Vec<MessageHeader> },
    UnifiedMoreMessages { request_id: u64, messages: Vec<MessageHeader>, has_more: bool },
    NewMessages { account_id: AccountId, messages: Vec<MessageHeader> },
    MessageChanges { account_id: AccountId, folder_id: Option<String>, upserts: Vec<MessageHeader>, deleted: Vec<String> },
    MessageOpened { account_id: AccountId, message: Message },
    CachedMessageOpened { account_id: AccountId, message: Message },
    SyncStateChanged { account_id: AccountId, online: bool, error: Option<String> },
    /// The body of a message; `restores` tells that the session that is restored waits for it.
    ThreadMessageLoaded { account_id: AccountId, restores: bool, id: String, message: Message },
    /// The body of a message could not be had; `restores` as above.
    ThreadMessageError { account_id: AccountId, restores: bool, id: String, error: String },
    Thread { account_id: AccountId, conversation_id: String, messages: Vec<MessageHeader> },
    SearchResults { account_id: AccountId, query: String, messages: Vec<MessageHeader> },
    MessageActionNoted { account_id: AccountId, id: String, action: LastAction, at: i128 },
}

impl MailEvt {
    /// The account that the event is of.
    pub open spec fn account_name(self) -> Option<Seq<char>> {
        match self {
            MailEvt::Messages { account_id, .. } => Some(account_id.0@),
            MailEvt::ConversationTotals { account_id, .. } => Some(account_id.0@),
            MailEvt::CachedMessages { account_id, .. } => Some(account_id.0@),
            MailEvt::MoreMessages { account_id, .. } => Some(account_id.0@),
            MailEvt::NewMessages { account_id, .. } => Some(account_id.0@),
            MailEvt::MessageChanges { account_id, .. } => Some(account_id.0@),
            MailEvt::MessageOpened { account_id, .. } => Some(account_id.0@),
            MailEvt::CachedMessageOpened { account_id, .. } => Some(account_id.0@),
            MailEvt::SyncStateChanged { account_id, .. } => Some(account_id.0@),
            MailEvt::ThreadMessageLoaded { account_id, .. } => Some(account_id.0@),
            MailEvt::ThreadMessageError { account_id, .. } => Some(account_id.0@),
            MailEvt::Thread { account_id, .. } => Some(account_id.0@),
            MailEvt::SearchResults { account_id, .. } => Some(account_id.0@),
            MailEvt::MessageActionNoted { account_id, .. } => Some(account_id.0@),
            _ => None,
        }
    }

    /// The account that the event is of.
    pub fn account(&self) -> (account: Option<&AccountId>)
        ensures
            account.deep_view() == self.account_name(),
    {
        match self {
            MailEvt::Messages { account_id, .. } => Some(account_id),
            MailEvt::ConversationTotals { account_id, .. } => Some(account_id),
            MailEvt::CachedMessages { account_id, .. } => Some(account_id),
            MailEvt::MoreMessages { account_id, .. } => Some(account_id),
            MailEvt::NewMessages { account_id, .. } => Some(account_id),
            MailEvt::MessageChanges { account_id, .. } => Some(account_id),
            MailEvt::MessageOpened { account_id, .. } => Some(account_id),
            MailEvt::CachedMessageOpened { account_id, .. } => Some(account_id),
            MailEvt::SyncStateChanged { account_id, .. } => Some(account_id),
            MailEvt::ThreadMessageLoaded { account_id, .. } => Some(account_id),
            MailEvt::ThreadMessageError { account_id, .. } => Some(account_id),
            MailEvt::Thread { account_id, .. } => Some(account_id),
            MailEvt::SearchResults { account_id, .. } => Some(account_id),
            MailEvt::MessageActionNoted { account_id, .. } => Some(account_id),
            _ => None,
        }
    }
}

/// Events of folders.
#[derive(Debug)]
pub enum FolderEvt {
    Folders { account_id: AccountId, folders: Vec<MailFolder> },
    FolderCreated { account_id: AccountId, folder: MailFolder },
    FolderRenamed { account_id: AccountId, id: String, new_id: Option<String>, new_name: String },
    FolderDeleted { account_id: AccountId, id: String },
}

impl FolderEvt {
    /// The account that the event is of.
    pub open spec fn account_name(self) -> Option<Seq<char>> {
        match self {
            FolderEvt::Folders { account_id, .. } => Some(account_id.0@),
            FolderEvt::FolderCreated { account_id, .. } => Some(account_id.0@),
            FolderEvt::FolderRenamed { account_id, .. } => Some(account_id.0@),
            FolderEvt::FolderDeleted { account_id, .. } => Some(account_id.0@),
        }
    }

    /// The account that the event is of.
    pub fn account(&self) -> (account: Option<&AccountId>)
        ensures
            account.deep_view() == self.account_name(),
    {
        match self {
            FolderEvt::Folders { account_id, .. } => Some(account_id),
            FolderEvt::FolderCreated { account_id, .. } => Some(account_id),
            FolderEvt::FolderRenamed { account_id, .. } => Some(account_id),
            FolderEvt::FolderDeleted { account_id, .. } => Some(account_id),
        }
    }
}

/// Answers to changes of messages.
#[derive(Debug)]
pub enum OutboxEvt {
    MutationDeferred { account_id: AccountId, message_id: String, kind: MutationKind, first: bool, bulk: bool },
    MutationSucceeded { account_id: AccountId, reply: BulkReply },
    MutationFailed { account_id: AccountId, message_id: String, kind: MutationKind, header: Option<MessageHeader>, error: String, reply: BulkReply },
    OutboxQueued { account_id: AccountId, compose_id: u64 },
    MessageMoved { account_id: AccountId, message_id: String, target_folder_id: String, new_id: Option<String>, reply: BulkReply },
    MessageDeleted { account_id: AccountId, id: String, reply: BulkReply },
}

impl OutboxEvt {
    /// The account that the event is of.
    pub open spec fn account_name(self) -> Option<Seq<char>> {
        match self {
            OutboxEvt::MutationDeferred { account_id, .. } => Some(account_id.0@),
            OutboxEvt::MutationSucceeded { account_id, .. } => Some(account_id.0@),
            OutboxEvt::MutationFailed { account_id, .. } => Some(account_id.0@),
            OutboxEvt::OutboxQueued { account_id, .. } => Some(account_id.0@),
            OutboxEvt::MessageMoved { account_id, .. } => Some(account_id.0@),
            OutboxEvt::MessageDeleted { account_id, .. } => Some(account_id.0@),
        }
    }

    /// The account that the event is of.
    pub fn account(&self) -> (account: Option<&AccountId>)
        ensures
            account.deep_view() == self.account_name(),
    {
        match self {
            OutboxEvt::MutationDeferred { account_id, .. } => Some(account_id),
            OutboxEvt::MutationSucceeded { account_id, .. } => Some(account_id),
            OutboxEvt::MutationFailed { account_id, .. } => Some(account_id),
            OutboxEvt::OutboxQueued { account_id, .. } => Some(account_id),
            OutboxEvt::MessageMoved { account_id, .. } => Some(account_id),
            OutboxEvt::MessageDeleted { account_id, .. } => Some(account_id),
        }
    }
}

/// Events of tags.
#[derive(Debug)]
pub enum TagEvt {
    Tags { account_id: AccountId, tags: Vec<Tag> },
    TagCreated { account_id: AccountId, tag: Tag },
    TagRenamed { account_id: AccountId, id: String, new_id: Option<String>, old_message_tag: Option<String>, new_name: String },
    TagDeleted { account_id: AccountId, id: String },
    TagColorSet { account_id: AccountId, id: String, color: u32 },
    TagApplied { account_id: AccountId, message_id: String, tag_id: String, added: bool },
    TagApplyError { error: String, account_id: AccountId },
    TagListing { account_id: AccountId, tag_id: String, messages: Vec<MessageHeader> },
}

impl TagEvt {
    /// The account that the event is of.
    pub open spec fn account_name(self) -> Option<Seq<char>> {
        match self {
            TagEvt::Tags { account_id, .. } => Some(account_id.0@),
            TagEvt::TagCreated { account_id, .. } => Some(account_id.0@),
            TagEvt::TagRenamed { account_id, .. } => Some(account_id.0@),
            TagEvt::TagDeleted { account_id, .. } => Some(account_id.0@),
            TagEvt::TagColorSet { account_id, .. } => Some(account_id.0@),
            TagEvt::TagApplied { account_id, .. } => Some(account_id.0@),
            TagEvt::TagApplyError { account_id, .. } => Some(account_id.0@),
            TagEvt::TagListing { account_id, .. } => Some(account_id.0@),
        }
    }

    /// The account that the event is of.
    pub fn account(&self) -> (account: Option<&AccountId>)
        ensures
            account.deep_view() == self.account_name(),
    {
        match self {
            TagEvt::Tags { account_id, .. } => Some(account_id),
            TagEvt::TagCreated { account_id, .. } => Some(account_id),
            TagEvt::TagRenamed { account_id, .. } => Some(account_id),
            TagEvt::TagDeleted { account_id, .. } => Some(account_id),
            TagEvt::TagColorSet { account_id, .. } => Some(account_id),
            TagEvt::TagApplied { account_id, .. } => Some(account_id),
            TagEvt::TagApplyError { account_id, .. } => Some(account_id),
            TagEvt::TagListing { account_id, .. } => Some(account_id),
        }
    }
}

/// Events of accounts.
#[derive(Debug)]
pub enum AccountEvt {
    DeviceCode { user_code: String, verification_uri: String },
    GoogleAuthOpening { auth_url: String },
    AccountReady { account: Account },
    AccountRestoreFailed { account_id: AccountId, provider: Provider, error: String },
    LoggedOut { account_id: AccountId },
}

impl AccountEvt {
    /// The account that the event is of.
    pub open spec fn account_name(self) -> Option<Seq<char>> {
        match self {
            AccountEvt::AccountReady { account } => Some(account.id.0@),
            AccountEvt::AccountRestoreFailed { account_id, .. } => Some(account_id.0@),
            AccountEvt::LoggedOut { account_id, .. } => Some(account_id.0@),
            _ => None,
        }
    }

    /// The account that the event is of.
    pub fn account(&self) -> (account: Option<&AccountId>)
        ensures
            account.deep_view() == self.account_name(),
    {
        match self {
            AccountEvt::AccountReady { account } => Some(&account.id),
            AccountEvt::AccountRestoreFailed { account_id, .. } => Some(account_id),
            AccountEvt::LoggedOut { account_id, .. } => Some(account_id),
            _ => None,
        }
    }
}

/// Events of composers.
#[derive(Debug)]
pub enum ComposeEvt {
    MailSent { account_id: AccountId, compose_id: u64, sent_message: Option<SentMessage>, unresolved: bool },
    SentCopyResolved { account_id: AccountId, related_to: String, snapshot_id: String, message: Message },
    AiMailEditChunk { compose_id: u64, delta: String, translated: bool },
    AiMailEditFinished { compose_id: u64, markdown: String, translated: bool },
    AiMailEditError { compose_id: u64, error: String, translated: bool },
    MailSendError { account_id: AccountId, compose_id: u64, error: String },
    DraftSaved { account_id: AccountId, compose_id: u64, draft_id: Option<String>, autosave: bool },
    DraftSaveError { account_id: AccountId, compose_id: u64, error: String, autosave: bool },
}

impl ComposeEvt {
    /// The account that the event is of.
    pub open spec fn account_name(self) -> Option<Seq<char>> {
        match self {
            ComposeEvt::MailSent { account_id, .. } => Some(account_id.0@),
            ComposeEvt::SentCopyResolved { account_id, .. } => Some(account_id.0@),
            ComposeEvt::MailSendError { account_id, .. } => Some(account_id.0@),
            ComposeEvt::DraftSaved { account_id, .. } => Some(account_id.0@),
            ComposeEvt::DraftSaveError { account_id, .. } => Some(account_id.0@),
            _ => None,
        }
    }

    /// The account that the event is of.
    pub fn account(&self) -> (account: Option<&AccountId>)
        ensures
            account.deep_view() == self.account_name(),
    {
        match self {
            ComposeEvt::MailSent { account_id, .. } => Some(account_id),
            ComposeEvt::SentCopyResolved { account_id, .. } => Some(account_id),
            ComposeEvt::MailSendError { account_id, .. } => Some(account_id),
            ComposeEvt::DraftSaved { account_id, .. } => Some(account_id),
            ComposeEvt::DraftSaveError { account_id, .. } => Some(account_id),
            _ => None,
        }
    }
}

/// Events of calendars.
#[allow(inconsistent_fields)]
#[derive(Debug)]
pub enum CalendarEvt {
    CalendarLoadFailed { account_id: AccountId, from: i128, to: i128, error: String },
    InvitationResponded { account_id: AccountId, message_id: String, response: InvitationResponse },
    InvitationResponseError { account_id: AccountId, message_id: String, error: String },
    EventSaved { account_id: AccountId, request_id: u64, updated: bool },
    EventSaveError { account_id: AccountId, request_id: u64, error: String },
    CalendarEventDeleted { account_id: AccountId, event_id: String },
    CalendarEventDeleteError { account_id: AccountId, event_id: String, error: String },
    CalendarEventMoved { account_id: AccountId, event_id: String },
    CalendarEventMoveError { account_id: AccountId, event_id: String, previous_start: i128, previous_end: i128, error: String },
    IcalEvents { subscription_id: String, from: i128, to: i128, events: Vec<CalendarEvent> },
    IcalSyncState { subscription_id: String, syncing: bool, error: Option<String>, last_success: Option<i128> },
    IcalFeedUpdated { subscription_id: String, subscriptions: Vec<String> },
}

impl CalendarEvt {
    /// The account that the event is of.
    pub open spec fn account_name(self) -> Option<Seq<char>> {
        match self {
            CalendarEvt::CalendarLoadFailed { account_id, .. } => Some(account_id.0@),
            CalendarEvt::InvitationResponded { account_id, .. } => Some(account_id.0@),
            CalendarEvt::InvitationResponseError { account_id, .. } => Some(account_id.0@),
            CalendarEvt::EventSaved { account_id, .. } => Some(account_id.0@),
            CalendarEvt::EventSaveError { account_id, .. } => Some(account_id.0@),
            CalendarEvt::CalendarEventDeleted { account_id, .. } => Some(account_id.0@),
            CalendarEvt::CalendarEventDeleteError { account_id, .. } => Some(account_id.0@),
            CalendarEvt::CalendarEventMoved { account_id, .. } => Some(account_id.0@),
            CalendarEvt::CalendarEventMoveError { account_id, .. } => Some(account_id.0@),
            _ => None,
        }
    }

    /// The account that the event is of.
    pub fn account(&self) -> (account: Option<&AccountId>)
        ensures
            account.deep_view() == self.account_name(),
    {
        match self {
            CalendarEvt::CalendarLoadFailed { account_id, .. } => Some(account_id),
            CalendarEvt::InvitationResponded { account_id, .. } => Some(account_id),
            CalendarEvt::InvitationResponseError { account_id, .. } => Some(account_id),
            CalendarEvt::EventSaved { account_id, .. } => Some(account_id),
            CalendarEvt::EventSaveError { account_id, .. } => Some(account_id),
            CalendarEvt::CalendarEventDeleted { account_id, .. } => Some(account_id),
            CalendarEvt::CalendarEventDeleteError { account_id, .. } => Some(account_id),
            CalendarEvt::CalendarEventMoved { account_id, .. } => Some(account_id),
            CalendarEvt::CalendarEventMoveError { account_id, .. } => Some(account_id),
            _ => None,
        }
    }
}

/// Events of quick actions.
#[derive(Debug)]
pub enum QuickEvt {
    QuickActionMessageLoaded { account_id: AccountId, request_id: u64, message: Message, quoted: QuotedMail },
    QuickActionMessageError { account_id: AccountId, request_id: u64, error: String },
    QuickActionCompleted { account_id: AccountId, id: u64, action_name: String },
    QuickActionStarted { account_id: AccountId, id: u64, action_name: String },
    QuickActionCancelled { account_id: AccountId, id: u64, action_name: String },
    QuickActionFailed { account_id: AccountId, remaining: QuickActionExecution, completed_steps: usize, error: String },
    QuickActionSendUncertain { account_id: AccountId, remaining: QuickActionExecution },
    QuickActionMessageState { account_id: AccountId, message_id: String, read: Option<bool>, flagged: Option<bool> },
}

impl QuickEvt {
    /// The account that the event is of.
    pub open spec fn account_name(self) -> Option<Seq<char>> {
        match self {
            QuickEvt::QuickActionMessageLoaded { account_id, .. } => Some(account_id.0@),
            QuickEvt::QuickActionMessageError { account_id, .. } => Some(account_id.0@),
            QuickEvt::QuickActionCompleted { account_id, .. } => Some(account_id.0@),
            QuickEvt::QuickActionStarted { account_id, .. } => Some(account_id.0@),
            QuickEvt::QuickActionCancelled { account_id, .. } => Some(account_id.0@),
            QuickEvt::QuickActionFailed { account_id, .. } => Some(account_id.0@),
            QuickEvt::QuickActionSendUncertain { account_id, .. } => Some(account_id.0@),
            QuickEvt::QuickActionMessageState { account_id, .. } => Some(account_id.0@),
        }
    }

    /// The account that the event is of.
    pub fn account(&self) -> (account: Option<&AccountId>)
        ensures
            account.deep_view() == self.account_name(),
    {
        match self {
            QuickEvt::QuickActionMessageLoaded { account_id, .. } => Some(account_id),
            QuickEvt::QuickActionMessageError { account_id, .. } => Some(account_id),
            QuickEvt::QuickActionCompleted { account_id, .. } => Some(account_id),
            QuickEvt::QuickActionStarted { account_id, .. } => Some(account_id),
            QuickEvt::QuickActionCancelled { account_id, .. } => Some(account_id),
            QuickEvt::QuickActionFailed { account_id, .. } => Some(account_id),
            QuickEvt::QuickActionSendUncertain { account_id, .. } => Some(account_id),
            QuickEvt::QuickActionMessageState { account_id, .. } => Some(account_id),
        }
    }
}

/// Events of address books and of a sender's earlier mail.
#[derive(Debug)]
pub enum ContactEvt {
    SenderHistory { account_id: AccountId, email: String, messages: Vec<MessageHeader>, next_link: Option<String> },
    SenderHistoryMore { account_id: AccountId, email: String, more: Vec<MessageHeader>, next_link: Option<String> },
    SenderHistoryError { account_id: AccountId, error: String, email: String, is_load_more: bool },
    Contacts { account_id: AccountId, contacts: Vec<Contact> },
}

impl ContactEvt {
    /// The account that the event is of.
    pub open spec fn account_name(self) -> Option<Seq<char>> {
        match self {
            ContactEvt::SenderHistory { account_id, .. } => Some(account_id.0@),
            ContactEvt::SenderHistoryMore { account_id, .. } => Some(account_id.0@),
            ContactEvt::SenderHistoryError { account_id, .. } => Some(account_id.0@),
            ContactEvt::Contacts { account_id, .. } => Some(account_id.0@),
        }
    }

    /// The account that the event is of.
    pub fn account(&self) -> (account: Option<&AccountId>)
        ensures
            account.deep_view() == self.account_name(),
    {
        match self {
            ContactEvt::SenderHistory { account_id, .. } => Some(account_id),
            ContactEvt::SenderHistoryMore { account_id, .. } => Some(account_id),
            ContactEvt::SenderHistoryError { account_id, .. } => Some(account_id),
            ContactEvt::Contacts { account_id, .. } => Some(account_id),
        }
    }
}

/// Answers that views take which hold no state here: attachments, recipients, editors. What
/// proofreading found and how often recipients were written to stays with those views.
#[derive(Debug)]
pub enum AnswerEvt {
    AttachmentFetched { account_id: AccountId, message_id: String, attachment_id: String, bytes: Vec<u8> },
    AttachmentFetchError { account_id: AccountId, message_id: String, attachment_id: String, error: String },
    RecipientUsage,
    LanguageToolStatus { ready: bool },
    LanguageToolChecked { editor_id: String, block_id: u64, revision: u64, checked: String },
    LanguageToolCheckFailed { editor_id: String, block_id: u64, revision: u64 },
    InlineImageFetched { editor_id: String, cid: String, bytes: Vec<u8>, mime: String },
    InlineImageFetchError { editor_id: String, cid: String },
    Status,
}

impl AnswerEvt {
    /// The account that the event is of.
    pub open spec fn account_name(self) -> Option<Seq<char>> {
        match self {
            AnswerEvt::AttachmentFetched { account_id, .. } => Some(account_id.0@),
            AnswerEvt::AttachmentFetchError { account_id, .. } => Some(account_id.0@),
            _ => None,
        }
    }

    /// The account that the event is of.
    pub fn account(&self) -> (account: Option<&AccountId>)
        ensures
            account.deep_view() == self.account_name(),
    {
        match self {
            AnswerEvt::AttachmentFetched { account_id, .. } => Some(account_id),
            AnswerEvt::AttachmentFetchError { account_id, .. } => Some(account_id),
            _ => None,
        }
    }

    /// Whether something is drawn again: not for what an editor or the log takes.
    pub open spec fn redraws(self) -> bool {
        match self {
            AnswerEvt::AttachmentFetched { .. } => true,
            AnswerEvt::AttachmentFetchError { .. } => true,
            AnswerEvt::RecipientUsage => true,
            AnswerEvt::LanguageToolStatus { .. } => true,
            _ => false,
        }
    }

    /// What is asked for. What the state of the proofreading service allows is tried again,
    /// and what is for an editor is offered to the editors.
    pub open spec fn asks(self) -> Seq<EffectView> {
        match self {
            AnswerEvt::AttachmentFetched { account_id, message_id, attachment_id, bytes } => seq![
                EffectView::ShowAttachment {
                    account_id: account_id.0@,
                    message_id: message_id@,
                    attachment_id: attachment_id@,
                    bytes: bytes@,
                },
            ],
            AnswerEvt::AttachmentFetchError { account_id, message_id, attachment_id, error } => seq![
                EffectView::AttachmentFailed {
                    account_id: account_id.0@,
                    message_id: message_id@,
                    attachment_id: attachment_id@,
                    error: error@,
                },
            ],
            AnswerEvt::RecipientUsage => seq![EffectView::MergeUsage],
            AnswerEvt::LanguageToolStatus { ready } => if ready {
                seq![EffectView::RetryProofreading]
            } else {
                Seq::empty()
            },
            AnswerEvt::LanguageToolChecked { editor_id, block_id, revision, checked } => seq![
                EffectView::OfferProofreading { editor_id: editor_id@, block_id, revision, checked: checked@ },
            ],
            AnswerEvt::LanguageToolCheckFailed { editor_id, block_id, revision } => seq![
                EffectView::OfferProofreadingFailure { editor_id: editor_id@, block_id, revision },
            ],
            AnswerEvt::InlineImageFetched { editor_id, cid, bytes, mime } => seq![
                EffectView::OfferInlineImage { editor_id: editor_id@, cid: cid@, bytes: bytes@, mime: mime@ },
            ],
            AnswerEvt::InlineImageFetchError { editor_id, cid } => seq![
                EffectView::OfferInlineImageFailure { editor_id: editor_id@, cid: cid@ },
            ],
            AnswerEvt::Status => Seq::empty(),
        }
    }
}

/// Further events.
#[derive(Debug)]
pub enum OtherEvt {
    Authenticated,
    MailCacheStats { used_bytes: u64, limit_bytes: u64 },
    MailCacheCleared,
    Failure { error: String },
}

/// An event of the runtime.
#[derive(Debug)]
pub enum Evt {
    Mail(MailEvt),
    Folder(FolderEvt),
    Outbox(OutboxEvt),
    Tag(TagEvt),
    Account(AccountEvt),
    Compose(ComposeEvt),
    Calendar(CalendarEvt),
    Quick(QuickEvt),
    Contact(ContactEvt),
    CalendarEvents { account_id: AccountId, from: i128, to: i128, events: Vec<CalendarEvent> },
    Answer(AnswerEvt),
    Other(OtherEvt),
}

/// What an event must meet to be handled.
#[derive(Debug, Clone, Copy, PartialEq, Eq, Structural)]
pub enum Relevance {
    /// Its account is on display.
    Listed,
    /// The calendar of its account is shown.
    CalendarShown,
    /// Its account is configured.
    Configured,
    /// Its message is asked for, wherever that was.
    Opened,
    /// The reading pane, the board or the session that is restored waits for it.
    Body,
    /// The reading pane or the board shows its account.
    Conversation,
}

impl Evt {
    /// The account that the event is of.
    pub open spec fn account_name(self) -> Option<Seq<char>> {
        match self {
            Evt::Mail(evt) => evt.account_name(),
            Evt::Folder(evt) => evt.account_name(),
            Evt::Outbox(evt) => evt.account_name(),
            Evt::Tag(evt) => evt.account_name(),
            Evt::Account(evt) => evt.account_name(),
            Evt::Compose(evt) => evt.account_name(),
            Evt::Calendar(evt) => evt.account_name(),
            Evt::Quick(evt) => evt.account_name(),
            Evt::Contact(evt) => evt.account_name(),
            Evt::CalendarEvents { account_id, .. } => Some(account_id.0@),
            Evt::Answer(evt) => evt.account_name(),
            Evt::Other(_) => None,
        }
    }

    /// The account that the event is of.
    pub fn account(&self) -> (account: Option<&AccountId>)
        ensures
            account.deep_view() == self.account_name(),
    {
        match self {
            Evt::Mail(evt) => evt.account(),
            Evt::Folder(evt) => evt.account(),
            Evt::Outbox(evt) => evt.account(),
            Evt::Tag(evt) => evt.account(),
            Evt::Account(evt) => evt.account(),
            Evt::Compose(evt) => evt.account(),
            Evt::Calendar(evt) => evt.account(),
            Evt::Quick(evt) => evt.account(),
            Evt::Contact(evt) => evt.account(),
            Evt::CalendarEvents { account_id, .. } => Some(account_id),
            Evt::Answer(evt) => evt.account(),
            Evt::Other(_) => None,
        }
    }

    /// What the event must meet to be handled.
    pub open spec fn needs(self) -> Relevance {
        match self {
            Evt::CalendarEvents { .. } => Relevance::CalendarShown,
            Evt::Calendar(CalendarEvt::CalendarLoadFailed { .. }) => Relevance::Configured,
            Evt::Tag(_) => Relevance::Configured,
            Evt::Quick(QuickEvt::QuickActionMessageState { .. }) => Relevance::Configured,
            Evt::Mail(MailEvt::MessageOpened { .. }) => Relevance::Opened,
            Evt::Mail(MailEvt::CachedMessageOpened { .. }) => Relevance::Opened,
            Evt::Mail(MailEvt::ThreadMessageLoaded { .. }) => Relevance::Body,
            Evt::Mail(MailEvt::ThreadMessageError { .. }) => Relevance::Body,
            Evt::Mail(MailEvt::Thread { .. }) => Relevance::Conversation,
            _ => Relevance::Listed,
        }
    }

    /// What the event must meet to be handled.
    pub fn relevance(&self) -> (needs: Relevance)
        ensures
            needs == self.needs(),
    {
        match self {
            Evt::CalendarEvents { .. } => Relevance::CalendarShown,
            Evt::Tag(_) => Relevance::Configured,
            Evt::Calendar(evt) => match evt {
                CalendarEvt::CalendarLoadFailed { .. } => Relevance::Configured,
                _ => Relevance::Listed,
            },
            Evt::Quick(evt) => match evt {
                QuickEvt::QuickActionMessageState { .. } => Relevance::Configured,
                _ => Relevance::Listed,
            },
            Evt::Mail(evt) => match evt {
                MailEvt::MessageOpened { .. } => Relevance::Opened,
                MailEvt::CachedMessageOpened { .. } => Relevance::Opened,
                MailEvt::ThreadMessageLoaded { .. } => Relevance::Body,
                MailEvt::ThreadMessageError { .. } => Relevance::Body,
                MailEvt::Thread { .. } => Relevance::Conversation,
                _ => Relevance::Listed,
            },
            _ => Relevance::Listed,
        }
    }

    /// The message that the event is about, if it opens one.
    pub open spec fn opened_id(self) -> Option<Seq<char>> {
        match self {
            Evt::Mail(MailEvt::MessageOpened { message, .. }) => Some(message.header.id@),
            Evt::Mail(MailEvt::CachedMessageOpened { message, .. }) => Some(message.header.id@),
            _ => None,
        }
    }

    /// The message that the event is about, if it opens one.
    pub fn opened(&self) -> (id: Option<&String>)
        ensures
            id.deep_view() == self.opened_id(),
    {
        match self {
            Evt::Mail(evt) => match evt {
                MailEvt::MessageOpened { message, .. } => Some(&message.header.id),
                MailEvt::CachedMessageOpened { message, .. } => Some(&message.header.id),
                _ => None,
            },
            _ => None,
        }
    }

    /// Whether the session that is restored waits for the event.
    pub open spec fn restores(self) -> bool {
        match self {
            Evt::Mail(MailEvt::ThreadMessageLoaded { restores, .. }) => restores,
            Evt::Mail(MailEvt::ThreadMessageError { restores, .. }) => restores,
            _ => false,
        }
    }

    /// Whether the session that is restored waits for the event.
    pub fn restores_session(&self) -> (yes: bool)
        ensures
            yes == self.restores(),
    {
        match self {
            Evt::Mail(evt) => match evt {
                MailEvt::ThreadMessageLoaded { restores, .. } => *restores,
                MailEvt::ThreadMessageError { restores, .. } => *restores,
                _ => false,
            },
            _ => false,
        }
    }
}

impl AviaryApp {
    /// Whether a card of the board that is to be opened is of an account.
    pub open spec fn board_opens_of(self, id: Seq<char>) -> bool {
        match self.pending.kanban_open.deep_view() {
            Some((account, _)) => account == id,
            None => false,
        }
    }

    /// Whether an event of an account meets what it must.
    pub open spec fn meets(self, id: Seq<char>, evt: Evt) -> bool {
        match evt.needs() {
            Relevance::Listed => self.relevant(id),
            Relevance::CalendarShown => self.calendar_visible(id),
            Relevance::Configured => self.has_account(id),
            Relevance::Opened => {
                ||| self.relevant(id)
                ||| match evt.opened_id() {
                    Some(message) => self.awaited(id, message),
                    None => false,
                }
                ||| self.view == MainView::Kanban && (self.previews(id) || self.board_opens_of(id))
            },
            Relevance::Body => self.relevant(id) || self.shows_account(id) || evt.restores() || self.previews(id),
            Relevance::Conversation => self.relevant(id) || self.shows_account(id) || self.previews(id),
        }
    }

    /// Whether an event is handled: events that begin or end something are, whichever
    /// account they are of, and events of no account; of the others those that matter.
    pub open spec fn accepts(self, evt: Evt, lifecycle: bool) -> bool {
        lifecycle || match evt.account_name() {
            Some(id) => self.meets(id, evt),
            None => true,
        }
    }

    fn pair_of_account(pair: &Option<(AccountId, String)>, id: &AccountId) -> (yes: bool)
        ensures
            yes == match pair.deep_view() {
                Some((account, _)) => account == id.0@,
                None => false,
            },
    {
        match pair {
            Some(pair) => pair.0 == *id,
            None => false,
        }
    }

    /// Whether an event of an account meets what it must.
    fn event_meets(&self, id: &AccountId, evt: &Evt) -> (yes: bool)
        ensures
            yes == self.meets(id.0@, *evt),
    {
        match evt.relevance() {
            Relevance::Listed => self.event_relevant(id),
            Relevance::CalendarShown => self.calendar_account_visible(id),
            Relevance::Configured => self.account(id).is_some(),
            Relevance::Opened => {
                let awaited = match evt.opened() {
                    Some(message) => self.awaits_notification_open(id, message),
                    None => false,
                };
                let board = match self.view {
                    MainView::Kanban => Self::pair_of_account(&self.kanban.preview, id) || Self::pair_of_account(
                        &self.pending.kanban_open,
                        id,
                    ),
                    _ => false,
                };
                self.event_relevant(id) || awaited || board
            },
            Relevance::Body => self.event_relevant(id) || self.viewer_shows_account(id) || evt.restores_session()
                || Self::pair_of_account(&self.kanban.preview, id),
            Relevance::Conversation => self.event_relevant(id) || self.viewer_shows_account(id)
                || Self::pair_of_account(&self.kanban.preview, id),
        }
    }

    /// Whether an event is handled.
    pub fn event_accepted(&self, evt: &Evt, lifecycle: bool) -> (yes: bool)
        ensures
            yes == self.accepts(*evt, lifecycle),
    {
        if lifecycle {
            return true;
        }
        match evt.account() {
            Some(id) => self.event_meets(id, evt),
            None => true,
        }
    }

    /// What an event of this kind does.
    pub open spec fn mail_done(self, after: AviaryApp, evt: MailEvt) -> bool {
        match evt {
            MailEvt::Messages { account_id, messages } => self.messages_handled(after, account_id, messages),
            MailEvt::ConversationTotals { account_id, folder_id, totals } => self.conversation_totals_handled(after, account_id, folder_id, totals),
            MailEvt::CachedMessages { account_id, folder_id, messages } => self.cached_messages_handled(after, account_id, folder_id, messages),
            MailEvt::MoreMessages { account_id, messages, has_more } => self.more_messages_handled(after, account_id, messages, has_more),
            MailEvt::UnifiedMessages { request_id, messages, has_more } => self.unified_messages_handled(after, request_id, messages, has_more),
            MailEvt::UnifiedCachedMessages { request_id, messages } => self.unified_cached_messages_handled(after, request_id, messages),
            MailEvt::UnifiedMoreMessages { request_id, messages, has_more } => self.unified_more_messages_handled(after, request_id, messages, has_more),
            MailEvt::NewMessages { account_id, messages } => self.new_messages_handled(after, account_id, messages),
            MailEvt::MessageChanges { account_id, folder_id, upserts, deleted } => self.message_changes_handled(after, account_id, folder_id, upserts, deleted),
            MailEvt::MessageOpened { account_id, message } => self.message_opened_handled(after, account_id, message),
            MailEvt::CachedMessageOpened { account_id, message } => self.cached_message_opened_handled(after, account_id, message),
            MailEvt::SyncStateChanged { account_id, online, error } => self.sync_state_changed_handled(after, account_id, online, error),
            MailEvt::ThreadMessageLoaded { id, message, .. } => self.thread_message_loaded_handled(after, id, message),
            MailEvt::ThreadMessageError { id, error, .. } => self.thread_message_error_handled(after, id, error),
            MailEvt::Thread { conversation_id, messages, .. } => self.thread_handled(after, conversation_id, messages),
            MailEvt::SearchResults { account_id, query, messages } => self.search_results_handled(after, account_id, query, messages),
            MailEvt::MessageActionNoted { id, action, at, .. } => self.message_action_noted_handled(after, id, action, at),
        }
    }

    /// Handles an event of this kind.
    fn handle_mail(&mut self, evt: MailEvt)
        ensures
            old(self).mail_done(*final(self), evt),
    {
        match evt {
            MailEvt::Messages { account_id, messages } => self.on_messages(account_id, messages),
            MailEvt::ConversationTotals { account_id, folder_id, totals } => self.on_conversation_totals(account_id, folder_id, totals),
            MailEvt::CachedMessages { account_id, folder_id, messages } => self.on_cached_messages(account_id, folder_id, messages),
            MailEvt::MoreMessages { account_id, messages, has_more } => self.on_more_messages(account_id, messages, has_more),
            MailEvt::UnifiedMessages { request_id, messages, has_more } => self.on_unified_messages(request_id, messages, has_more),
            MailEvt::UnifiedCachedMessages { request_id, messages } => self.on_unified_cached_messages(request_id, messages),
            MailEvt::UnifiedMoreMessages { request_id, messages, has_more } => self.on_unified_more_messages(request_id, messages, has_more),
            MailEvt::NewMessages { account_id, messages } => self.on_new_messages(account_id, messages),
            MailEvt::MessageChanges { account_id, folder_id, upserts, deleted } => self.on_message_changes(account_id, folder_id, upserts, deleted),
            MailEvt::MessageOpened { account_id, message } => self.on_message_opened(account_id, message),
            MailEvt::CachedMessageOpened { account_id, message } => self.on_cached_message_opened(account_id, message),
            MailEvt::SyncStateChanged { account_id, online, error } => self.on_sync_state_changed(account_id, online, error),
            MailEvt::ThreadMessageLoaded { id, message, .. } => self.on_thread_message_loaded(id, message),
            MailEvt::ThreadMessageError { id, error, .. } => self.on_thread_message_error(id, error),
            MailEvt::Thread { conversation_id, messages, .. } => self.on_thread(conversation_id, messages),
            MailEvt::SearchResults { account_id, query, messages } => self.on_search_results(account_id, query, messages),
            MailEvt::MessageActionNoted { id, action, at, .. } => self.on_message_action_noted(id, action, at),
        }
    }

    /// What an event of this kind does.
    pub open spec fn folder_done(self, after: AviaryApp, evt: FolderEvt) -> bool {
        match evt {
            FolderEvt::Folders { account_id, folders } => self.folders_handled(after, account_id, folders),
            FolderEvt::FolderCreated { account_id, folder } => self.folder_created_handled(after, account_id, folder),
            FolderEvt::FolderRenamed { account_id, id, new_id, new_name } => self.folder_renamed_handled(after, account_id, id, new_id, new_name),
            FolderEvt::FolderDeleted { account_id, id } => self.folder_deleted_handled(after, account_id, id),
        }
    }

    /// Handles an event of this kind.
    fn handle_folder(&mut self, evt: FolderEvt)
        ensures
            old(self).folder_done(*final(self), evt),
    {
        match evt {
            FolderEvt::Folders { account_id, folders } => self.on_folders(account_id, folders),
            FolderEvt::FolderCreated { account_id, folder } => self.on_folder_created(account_id, folder),
            FolderEvt::FolderRenamed { account_id, id, new_id, new_name } => self.on_folder_renamed(account_id, id, new_id, new_name),
            FolderEvt::FolderDeleted { account_id, id } => self.on_folder_deleted(account_id, id),
        }
    }

    /// What an event of this kind does.
    pub open spec fn outbox_done(self, after: AviaryApp, evt: OutboxEvt) -> bool {
        match evt {
            OutboxEvt::MutationDeferred { account_id, message_id, kind, first, bulk } => self.mutation_deferred_handled(after, account_id, message_id, kind, first, bulk),
            OutboxEvt::MutationSucceeded { reply, .. } => self.mutation_succeeded_handled(after, reply),
            OutboxEvt::MutationFailed { account_id, message_id, kind, header, error, reply } => self.mutation_failed_handled(after, account_id, message_id, kind, header, error, reply),
            OutboxEvt::OutboxQueued { compose_id, .. } => self.outbox_queued_handled(after, compose_id),
            OutboxEvt::MessageMoved { account_id, message_id, target_folder_id, new_id, reply } => self.message_moved_handled(after, account_id, message_id, target_folder_id, new_id, reply),
            OutboxEvt::MessageDeleted { account_id, id, reply } => self.message_deleted_handled(after, account_id, id, reply),
        }
    }

    /// Whether an event of this kind is drawn.
    pub open spec fn outbox_redraws(evt: OutboxEvt) -> bool {
        match evt {
            OutboxEvt::MutationSucceeded { .. } => false,
            _ => true,
        }
    }

    /// Handles an event of this kind.
    fn handle_outbox(&mut self, evt: OutboxEvt) -> (redraw: bool)
        ensures
            old(self).outbox_done(*final(self), evt),
            redraw == Self::outbox_redraws(evt),
    {
        match evt {
            OutboxEvt::MutationDeferred { account_id, message_id, kind, first, bulk } => {
                self.on_mutation_deferred(account_id, message_id, kind, first, bulk);
                true
            },
            OutboxEvt::MutationSucceeded { reply, .. } => self.on_mutation_succeeded(reply),
            OutboxEvt::MutationFailed { account_id, message_id, kind, header, error, reply } => {
                self.on_mutation_failed(account_id, message_id, kind, header, error, reply);
                true
            },
            OutboxEvt::OutboxQueued { compose_id, .. } => {
                self.on_outbox_queued(compose_id);
                true
            },
            OutboxEvt::MessageMoved { account_id, message_id, target_folder_id, new_id, reply } => {
                self.on_message_moved(account_id, message_id, target_folder_id, new_id, reply);
                true
            },
            OutboxEvt::MessageDeleted { account_id, id, reply } => {
                self.on_message_deleted(account_id, id, reply);
                true
            },
        }
    }

    /// What an event of this kind does.
    pub open spec fn tag_done(self, after: AviaryApp, evt: TagEvt) -> bool {
        match evt {
            TagEvt::Tags { account_id, tags } => self.tags_handled(after, account_id, tags),
            TagEvt::TagCreated { account_id, tag } => self.tag_created_handled(after, account_id, tag),
            TagEvt::TagRenamed { account_id, id, new_id, old_message_tag, new_name } => self.tag_renamed_handled(after, account_id, id, new_id, old_message_tag, new_name),
            TagEvt::TagDeleted { account_id, id } => self.tag_deleted_handled(after, account_id, id),
            TagEvt::TagColorSet { account_id, id, color } => self.tag_color_set_handled(after, account_id, id, color),
            TagEvt::TagApplied { account_id, message_id, tag_id, added } => self.tag_applied_handled(after, account_id, message_id, tag_id, added),
            TagEvt::TagApplyError { account_id, error, .. } => exists|middle: AviaryApp|
                #[trigger] self.tag_apply_error_handled(middle, account_id) && after.asked(
                    middle,
                    seq![EffectView::NotifyError { error: error@ }],
                ) && after == (AviaryApp { effects: after.effects, ..middle }),
            TagEvt::TagListing { account_id, tag_id, messages } => self.tag_listing_handled(after, account_id, tag_id, messages),
        }
    }

    /// Handles an event of this kind.
    fn handle_tag(&mut self, evt: TagEvt)
        ensures
            old(self).tag_done(*final(self), evt),
    {
        match evt {
            TagEvt::Tags { account_id, tags } => self.on_tags(account_id, tags),
            TagEvt::TagCreated { account_id, tag } => self.on_tag_created(account_id, tag),
            TagEvt::TagRenamed { account_id, id, new_id, old_message_tag, new_name } => self.on_tag_renamed(account_id, id, new_id, old_message_tag, new_name),
            TagEvt::TagDeleted { account_id, id } => self.on_tag_deleted(account_id, id),
            TagEvt::TagColorSet { account_id, id, color } => self.on_tag_color_set(account_id, id, color),
            TagEvt::TagApplied { account_id, message_id, tag_id, added } => self.on_tag_applied(account_id, message_id, tag_id, added),
            TagEvt::TagApplyError { account_id, error, .. } => {
                let ghost start = *self;
                self.on_tag_apply_error(account_id);
                let ghost middle = *self;
                assert(start.tag_apply_error_handled(middle, account_id));
                self.send(Effect::NotifyError { error });
            },
            TagEvt::TagListing { account_id, tag_id, messages } => self.on_tag_listing(account_id, tag_id, messages),
        }
    }

    /// What an event of this kind does.
    pub open spec fn account_done(self, after: AviaryApp, evt: AccountEvt) -> bool {
        match evt {
            AccountEvt::DeviceCode { user_code, verification_uri } => self.device_code_handled(after, user_code, verification_uri),
            AccountEvt::GoogleAuthOpening { auth_url } => self.google_auth_opening_handled(after, auth_url),
            AccountEvt::AccountReady { account } => self.account_ready_handled(after, account),
            AccountEvt::AccountRestoreFailed { account_id, provider, error } => self.account_restore_failed_handled(after, account_id, provider, error),
            AccountEvt::LoggedOut { account_id } => self.logged_out_handled(after, account_id),
        }
    }

    /// Handles an event of this kind.
    fn handle_account(&mut self, evt: AccountEvt)
        ensures
            old(self).account_done(*final(self), evt),
    {
        match evt {
            AccountEvt::DeviceCode { user_code, verification_uri } => self.on_device_code(user_code, verification_uri),
            AccountEvt::GoogleAuthOpening { auth_url } => self.on_google_auth_opening(auth_url),
            AccountEvt::AccountReady { account } => self.on_account_ready(account),
            AccountEvt::AccountRestoreFailed { account_id, provider, error } => self.on_account_restore_failed(account_id, provider, error),
            AccountEvt::LoggedOut { account_id } => self.on_logged_out(account_id),
        }
    }

    /// What an event of this kind does.
    pub open spec fn compose_done(self, after: AviaryApp, evt: ComposeEvt) -> bool {
        match evt {
            ComposeEvt::MailSent { compose_id, sent_message, unresolved, .. } => self.mail_sent_handled(after, compose_id, sent_message, unresolved),
            ComposeEvt::SentCopyResolved { related_to, snapshot_id, message, .. } => self.sent_copy_resolved_handled(after, related_to, snapshot_id, message),
            ComposeEvt::AiMailEditChunk { compose_id, delta, translated } => self.ai_edit_chunk_handled(after, compose_id, delta, translated),
            ComposeEvt::AiMailEditFinished { compose_id, markdown, translated } => self.ai_edit_finished_handled(after, compose_id, markdown, translated),
            ComposeEvt::AiMailEditError { compose_id, error, translated } => self.ai_edit_error_handled(after, compose_id, error, translated),
            ComposeEvt::MailSendError { compose_id, error, .. } => self.compose_runtime_error_handled(after, compose_id, error),
            ComposeEvt::DraftSaved { account_id, compose_id, draft_id, autosave } => self.draft_saved_handled(after, account_id, compose_id, draft_id, autosave),
            ComposeEvt::DraftSaveError { account_id, compose_id, error, autosave } => self.draft_save_error_handled(after, account_id, compose_id, error, autosave),
        }
    }

    /// Whether an event of this kind is drawn.
    pub open spec fn compose_redraws(evt: ComposeEvt) -> bool {
        match evt {
            ComposeEvt::AiMailEditChunk { translated, .. } => translated,
            _ => true,
        }
    }

    /// Handles an event of this kind.
    fn handle_compose(&mut self, evt: ComposeEvt) -> (redraw: bool)
        ensures
            old(self).compose_done(*final(self), evt),
            redraw == Self::compose_redraws(evt),
    {
        match evt {
            ComposeEvt::MailSent { compose_id, sent_message, unresolved, .. } => {
                self.on_mail_sent(compose_id, sent_message, unresolved);
                true
            },
            ComposeEvt::SentCopyResolved { related_to, snapshot_id, message, .. } => {
                self.on_sent_copy_resolved(related_to, snapshot_id, message);
                true
            },
            ComposeEvt::AiMailEditChunk { compose_id, delta, translated } => self.on_ai_edit_chunk(compose_id, delta, translated),
            ComposeEvt::AiMailEditFinished { compose_id, markdown, translated } => {
                self.on_ai_edit_finished(compose_id, markdown, translated);
                true
            },
            ComposeEvt::AiMailEditError { compose_id, error, translated } => {
                self.on_ai_edit_error(compose_id, error, translated);
                true
            },
            ComposeEvt::MailSendError { compose_id, error, .. } => {
                self.on_compose_runtime_error(compose_id, error);
                true
            },
            ComposeEvt::DraftSaved { account_id, compose_id, draft_id, autosave } => {
                self.on_draft_saved(account_id, compose_id, draft_id, autosave);
                true
            },
            ComposeEvt::DraftSaveError { account_id, compose_id, error, autosave } => {
                self.on_draft_save_error(account_id, compose_id, error, autosave);
                true
            },
        }
    }

    /// What an event of this kind does.
    pub open spec fn calendar_done(self, after: AviaryApp, evt: CalendarEvt) -> bool {
        match evt {
            CalendarEvt::CalendarLoadFailed { account_id, from, to, error } => self.calendar_load_failed_handled(after, account_id, from, to, error),
            CalendarEvt::InvitationResponded { account_id, message_id, response } => self.invitation_responded_handled(after, account_id, message_id, response),
            CalendarEvt::InvitationResponseError { account_id, message_id, error } => self.invitation_response_error_handled(after, account_id, message_id, error),
            CalendarEvt::EventSaved { request_id, updated, .. } => self.calendar_event_saved_handled(after, request_id, updated),
            CalendarEvt::EventSaveError { request_id, error, .. } => self.calendar_event_save_error_handled(after, request_id, error),
            CalendarEvt::CalendarEventDeleted { account_id, event_id } => self.calendar_event_deleted_handled(after, account_id, event_id),
            CalendarEvt::CalendarEventDeleteError { account_id, event_id, error } => self.calendar_event_delete_error_handled(after, account_id, event_id, error),
            CalendarEvt::CalendarEventMoved { account_id, event_id } => self.calendar_event_moved_handled(after, account_id, event_id),
            CalendarEvt::CalendarEventMoveError { account_id, event_id, previous_start, previous_end, error } => self.calendar_event_move_error_handled(after, account_id, event_id, previous_start, previous_end, error),
            CalendarEvt::IcalEvents { subscription_id, from, to, events } => self.ical_events_handled(after, subscription_id, from, to, events),
            CalendarEvt::IcalSyncState { subscription_id, syncing, error, last_success } => self.ical_sync_state_handled(after, subscription_id, syncing, error, last_success),
            CalendarEvt::IcalFeedUpdated { subscription_id, subscriptions } => self.ical_feed_updated_handled(after, &subscription_id, &subscriptions),
        }
    }

    /// Handles an event of this kind.
    fn handle_calendar(&mut self, evt: CalendarEvt)
        ensures
            old(self).calendar_done(*final(self), evt),
    {
        match evt {
            CalendarEvt::CalendarLoadFailed { account_id, from, to, error } => self.on_calendar_load_failed(account_id, from, to, error),
            CalendarEvt::InvitationResponded { account_id, message_id, response } => self.on_invitation_responded(account_id, message_id, response),
            CalendarEvt::InvitationResponseError { account_id, message_id, error } => self.on_invitation_response_error(account_id, message_id, error),
            CalendarEvt::EventSaved { request_id, updated, .. } => self.on_calendar_event_saved(request_id, updated),
            CalendarEvt::EventSaveError { request_id, error, .. } => self.on_calendar_event_save_error(request_id, error),
            CalendarEvt::CalendarEventDeleted { account_id, event_id } => self.on_calendar_event_deleted(account_id, event_id),
            CalendarEvt::CalendarEventDeleteError { account_id, event_id, error } => self.on_calendar_event_delete_error(account_id, event_id, error),
            CalendarEvt::CalendarEventMoved { account_id, event_id } => self.on_calendar_event_moved(account_id, event_id),
            CalendarEvt::CalendarEventMoveError { account_id, event_id, previous_start, previous_end, error } => self.on_calendar_event_move_error(account_id, event_id, previous_start, previous_end, error),
            CalendarEvt::IcalEvents { subscription_id, from, to, events } => self.on_ical_events(subscription_id, from, to, events),
            CalendarEvt::IcalSyncState { subscription_id, syncing, error, last_success } => self.on_ical_sync_state(subscription_id, syncing, error, last_success),
            CalendarEvt::IcalFeedUpdated { subscription_id, subscriptions } => self.on_ical_feed_updated(&subscription_id, &subscriptions),
        }
    }

    /// What an event of this kind does.
    pub open spec fn quick_done(self, after: AviaryApp, evt: QuickEvt) -> bool {
        match evt {
            QuickEvt::QuickActionMessageLoaded { request_id, message, quoted, .. } => self.quick_action_message_loaded_handled(after, request_id, message, quoted),
            QuickEvt::QuickActionMessageError { request_id, error, .. } => self.quick_action_message_error_handled(after, request_id, error),
            QuickEvt::QuickActionCompleted { id, action_name, .. } => self.quick_action_completed_handled(after, id, action_name),
            QuickEvt::QuickActionStarted { id, action_name, .. } => self.quick_action_started_handled(after, id, action_name),
            QuickEvt::QuickActionCancelled { id, action_name, .. } => self.quick_action_cancelled_handled(after, id, action_name),
            QuickEvt::QuickActionFailed { remaining, completed_steps, error, .. } => self.quick_action_failed_handled(after, &remaining, completed_steps, error),
            QuickEvt::QuickActionSendUncertain { remaining, .. } => self.quick_action_send_uncertain_handled(after, &remaining),
            QuickEvt::QuickActionMessageState { account_id, message_id, read, flagged } => self.quick_action_message_state_handled(after, account_id, message_id, read, flagged),
        }
    }

    /// Handles an event of this kind.
    fn handle_quick(&mut self, evt: QuickEvt)
        ensures
            old(self).quick_done(*final(self), evt),
    {
        match evt {
            QuickEvt::QuickActionMessageLoaded { request_id, message, quoted, .. } => self.on_quick_action_message_loaded(request_id, message, quoted),
            QuickEvt::QuickActionMessageError { request_id, error, .. } => self.on_quick_action_message_error(request_id, error),
            QuickEvt::QuickActionCompleted { id, action_name, .. } => self.on_quick_action_completed(id, action_name),
            QuickEvt::QuickActionStarted { id, action_name, .. } => self.on_quick_action_started(id, action_name),
            QuickEvt::QuickActionCancelled { id, action_name, .. } => self.on_quick_action_cancelled(id, action_name),
            QuickEvt::QuickActionFailed { remaining, completed_steps, error, .. } => self.on_quick_action_failed(&remaining, completed_steps, error),
            QuickEvt::QuickActionSendUncertain { remaining, .. } => self.on_quick_action_send_uncertain(&remaining),
            QuickEvt::QuickActionMessageState { account_id, message_id, read, flagged } => self.on_quick_action_message_state(account_id, message_id, read, flagged),
        }
    }

    /// What an event of this kind does.
    pub open spec fn contact_done(self, after: AviaryApp, evt: ContactEvt) -> bool {
        match evt {
            ContactEvt::SenderHistory { email, messages, next_link, .. } => self.sender_history_handled(after, email, messages, next_link),
            ContactEvt::SenderHistoryMore { email, more, next_link, .. } => self.sender_history_more_handled(after, email, more, next_link),
            ContactEvt::SenderHistoryError { email, is_load_more, error, .. } => exists|middle: AviaryApp|
                #[trigger] self.sender_history_error_handled(middle, email, is_load_more) && after.asked(
                    middle,
                    seq![EffectView::NotifyError { error: error@ }],
                ) && after == (AviaryApp { effects: after.effects, ..middle }),
            ContactEvt::Contacts { account_id, contacts } => self.contacts_handled(after, account_id, contacts),
        }
    }

    /// Handles an event of this kind.
    fn handle_contact(&mut self, evt: ContactEvt)
        ensures
            old(self).contact_done(*final(self), evt),
    {
        match evt {
            ContactEvt::SenderHistory { email, messages, next_link, .. } => self.on_sender_history(email, messages, next_link),
            ContactEvt::SenderHistoryMore { email, more, next_link, .. } => self.on_sender_history_more(email, more, next_link),
            ContactEvt::SenderHistoryError { email, is_load_more, error, .. } => {
                let ghost start = *self;
                self.on_sender_history_error(email, is_load_more);
                let ghost middle = *self;
                assert(start.sender_history_error_handled(middle, email, is_load_more));
                self.send(Effect::NotifyError { error });
            },
            ContactEvt::Contacts { account_id, contacts } => self.on_contacts(account_id, contacts),
        }
    }

    /// What an answer does.
    pub open spec fn answer_done(self, after: AviaryApp, evt: AnswerEvt) -> bool {
        &&& after.asked(self, evt.asks())
        &&& after == (AviaryApp { effects: after.effects, ..self })
    }

    /// Handles an answer.
    fn handle_answer(&mut self, evt: AnswerEvt) -> (redraw: bool)
        ensures
            old(self).answer_done(*final(self), evt),
            redraw == evt.redraws(),
    {
        let ghost start = self.effects.deep_view();
        assert(start + Seq::<EffectView>::empty() =~= start);
        match evt {
            AnswerEvt::AttachmentFetched { account_id, message_id, attachment_id, bytes } => {
                assert(bytes.deep_view() =~= bytes@);
                self.send(Effect::ShowAttachment { account_id, message_id, attachment_id, bytes });
                true
            },
            AnswerEvt::AttachmentFetchError { account_id, message_id, attachment_id, error } => {
                self.send(Effect::AttachmentFailed { account_id, message_id, attachment_id, error });
                true
            },
            AnswerEvt::RecipientUsage => {
                self.send(Effect::MergeUsage);
                true
            },
            AnswerEvt::LanguageToolStatus { ready } => {
                if ready {
                    self.send(Effect::RetryProofreading);
                }
                true
            },
            AnswerEvt::LanguageToolChecked { editor_id, block_id, revision, checked } => {
                self.send(Effect::OfferProofreading { editor_id, block_id, revision, checked });
                false
            },
            AnswerEvt::LanguageToolCheckFailed { editor_id, block_id, revision } => {
                self.send(Effect::OfferProofreadingFailure { editor_id, block_id, revision });
                false
            },
            AnswerEvt::InlineImageFetched { editor_id, cid, bytes, mime } => {
                assert(bytes.deep_view() =~= bytes@);
                self.send(Effect::OfferInlineImage { editor_id, cid, bytes, mime });
                false
            },
            AnswerEvt::InlineImageFetchError { editor_id, cid } => {
                self.send(Effect::OfferInlineImageFailure { editor_id, cid });
                false
            },
            AnswerEvt::Status => false,
        }
    }

    /// What a further event does.
    pub open spec fn other_done(self, after: AviaryApp, evt: OtherEvt) -> bool {
        match evt {
            OtherEvt::Authenticated => after == (AviaryApp { auth: AuthState::Authenticated, ..self }),
            OtherEvt::MailCacheStats { used_bytes, limit_bytes } => after == (AviaryApp {
                cache: CacheStats { used_bytes, limit_bytes },
                ..self
            }),
            OtherEvt::MailCacheCleared => {
                &&& after.asked(
                    self,
                    seq![EffectView::ClearUsage, told(ToastKind::Success, "settings-cache-cleared"@)],
                )
                &&& after == (AviaryApp {
                    cache: CacheStats { used_bytes: 0, ..self.cache },
                    effects: after.effects,
                    ..self
                })
            },
            OtherEvt::Failure { error } => {
                &&& after.asked(self, seq![EffectView::NotifyError { error: error@ }])
                &&& after == (AviaryApp {
                    auth: if self.auth == AuthState::Authenticated || self.accounts.len() > 0 {
                        AuthState::Authenticated
                    } else {
                        AuthState::Idle
                    },
                    mailbox: MailboxState {
                        pagination: PaginationState {
                            loading_more: false,
                            last_request_len: None,
                            ..self.mailbox.pagination
                        },
                        ..self.mailbox
                    },
                    effects: after.effects,
                    ..self
                })
            },
        }
    }

    /// Handles a further event.
    fn handle_other(&mut self, evt: OtherEvt)
        ensures
            old(self).other_done(*final(self), evt),
    {
        match evt {
            OtherEvt::Authenticated => {
                self.auth = AuthState::Authenticated;
            },
            OtherEvt::MailCacheStats { used_bytes, limit_bytes } => {
                self.cache = CacheStats { used_bytes, limit_bytes };
            },
            OtherEvt::MailCacheCleared => {
                let ghost start = self.effects.deep_view();
                self.cache.used_bytes = 0;
                self.send(Effect::ClearUsage);
                self.tell(ToastKind::Success, "settings-cache-cleared");
                assert(self.effects.deep_view() =~= start + seq![
                    EffectView::ClearUsage,
                    told(ToastKind::Success, "settings-cache-cleared"@),
                ]);
            },
            OtherEvt::Failure { error } => {
                let authenticated = match &self.auth {
                    AuthState::Authenticated => true,
                    _ => false,
                };
                if !authenticated {
                    self.auth = if self.accounts.len() == 0 {
                        AuthState::Idle
                    } else {
                        AuthState::Authenticated
                    };
                }
                self.mailbox.pagination.loading_more = false;
                self.mailbox.pagination.last_request_len = None;
                self.send(Effect::NotifyError { error });
            },
        }
    }

    /// What an event that is accepted does.
    pub open spec fn event_done(self, after: AviaryApp, evt: Evt) -> bool {
        match evt {
            Evt::Mail(evt) => self.mail_done(after, evt),
            Evt::Folder(evt) => self.folder_done(after, evt),
            Evt::Outbox(evt) => self.outbox_done(after, evt),
            Evt::Tag(evt) => self.tag_done(after, evt),
            Evt::Account(evt) => self.account_done(after, evt),
            Evt::Compose(evt) => self.compose_done(after, evt),
            Evt::Calendar(evt) => self.calendar_done(after, evt),
            Evt::Quick(evt) => self.quick_done(after, evt),
            Evt::Contact(evt) => self.contact_done(after, evt),
            Evt::CalendarEvents { account_id, from, to, events } => self.calendar_events_handled(
                after,
                account_id,
                from,
                to,
                events,
            ),
            Evt::Answer(evt) => self.answer_done(after, evt),
            Evt::Other(evt) => self.other_done(after, evt),
        }
    }

    /// Whether an event that is accepted is drawn.
    pub open spec fn event_redraws(evt: Evt) -> bool {
        match evt {
            Evt::Outbox(evt) => Self::outbox_redraws(evt),
            Evt::Compose(evt) => Self::compose_redraws(evt),
            Evt::Answer(evt) => evt.redraws(),
            _ => true,
        }
    }

    /// The application once its list is to be laid out again, if an event asks for that.
    pub open spec fn list_outdated(self, invalidates: bool) -> AviaryApp {
        if invalidates {
            AviaryApp { message_list_revision: self.next_revision(), ..self }
        } else {
            self
        }
    }

    /// The rows that went away are no longer hovered, if an event asks for that.
    pub open spec fn hover_pruned(self, after: AviaryApp, prunes: bool) -> bool {
        if prunes {
            &&& after.asked(self, seq![EffectView::PruneRowHover])
            &&& after == (AviaryApp { effects: after.effects, ..self })
        } else {
            after == self
        }
    }

    /// Handles an event. `lifecycle` tells that it begins or ends something or answers a
    /// window of its own, `invalidates` that the list is to be laid out again, `prunes` that
    /// rows may have gone away under the pointer. Tells whether the view is to be drawn
    /// again.
    pub fn handle_event(&mut self, evt: Evt, lifecycle: bool, invalidates: bool, prunes: bool) -> (redraw: bool)
        ensures
            ({
                let before = old(self).list_outdated(invalidates);
                if before.accepts(evt, lifecycle) {
                    &&& exists|middle: AviaryApp|
                        #![trigger before.event_done(middle, evt)]
                        before.event_done(middle, evt) && middle.hover_pruned(*final(self), prunes)
                    &&& redraw == Self::event_redraws(evt)
                } else {
                    &&& *final(self) == before
                    &&& !redraw
                }
            }),
    {
        if invalidates {
            self.invalidate_message_list();
        }
        if !self.event_accepted(&evt, lifecycle) {
            return false;
        }
        let ghost before = *self;
        let redraw = self.reduce(evt);
        let ghost middle = *self;
        assert(before.event_done(middle, evt));
        if prunes {
            self.send(Effect::PruneRowHover);
        }
        assert(middle.hover_pruned(*self, prunes));
        redraw
    }

    /// Handles an event that is accepted.
    fn reduce(&mut self, evt: Evt) -> (redraw: bool)
        ensures
            old(self).event_done(*final(self), evt),
            redraw == Self::event_redraws(evt),
    {
        match evt {
            Evt::Mail(evt) => {
                self.handle_mail(evt);
                true
            },
            Evt::Folder(evt) => {
                self.handle_folder(evt);
                true
            },
            Evt::Outbox(evt) => self.handle_outbox(evt),
            Evt::Tag(evt) => {
                self.handle_tag(evt);
                true
            },
            Evt::Account(evt) => {
                self.handle_account(evt);
                true
            },
            Evt::Compose(evt) => self.handle_compose(evt),
            Evt::Calendar(evt) => {
                self.handle_calendar(evt);
                true
            },
            Evt::Quick(evt) => {
                self.handle_quick(evt);
                true
            },
            Evt::Contact(evt) => {
                self.handle_contact(evt);
                true
            },
            Evt::CalendarEvents { account_id, from, to, events } => {
                self.on_calendar_events(account_id, from, to, events);
                true
            },
            Evt::Answer(evt) => self.handle_answer(evt),
            Evt::Other(evt) => {
                self.handle_other(evt);
                true
            },
        }
    }
}

/// An event of an account that is not set up and that no view shows is not accepted, and so
/// changes nothing but the revision of the list.
pub proof fn law_other_accounts_do_not_interfere(before: AviaryApp, evt: Evt, id: Seq<char>)
    requires
        evt.account_name() == Some(id),
        !before.has_account(id),
        !before.relevant(id),
        !before.shows_account(id),
        !before.previews(id),
        !before.board_opens_of(id),
        !evt.restores(),
        evt.opened_id() is Some ==> !before.awaited(id, evt.opened_id()->0),
    ensures
        !before.accepts(evt, false),
{
}

} // verus!
