//! State of the application, and what it asks of the world around it.
use crate::account_map::AccountMap;
use crate::kanban::{BoardState, MergedTagTarget, MergedTagTargetView};
use crate::model::{
    clone_list, Account, AccountId, Contact, LastAction, MailFolder, MessageHeader, MessageHeaderView, MessageRef,
    MessageRefView, Provider, Tag,
};
use crate::settings::{
    Block, BlockView, InlineImage, InlineImageView, MailSearchScope, MailSearchSort, QuickAction, QuickActionView, Settings,
};
use vstd::prelude::*;

verus! {

/// Views of the main window.
#[derive(Debug, Clone, Copy, PartialEq, Eq, Structural)]
pub enum MainView {
    Mail,
    Contacts,
    Calendar,
    Kanban,
    Settings,
}

impl DeepView for MainView {
    type V = MainView;

    open spec fn deep_view(&self) -> MainView {
        *self
    }
}

impl Default for MainView {
    fn default() -> (value: Self)
        ensures
            value == MainView::Mail,
    {
        MainView::Mail
    }
}
/// Kinds of passing notifications.
#[derive(Debug, Clone, Copy, PartialEq, Eq, Structural)]
pub enum ToastKind {
    Info,
    Success,
    Warning,
    Error,
}

impl DeepView for ToastKind {
    type V = ToastKind;

    open spec fn deep_view(&self) -> ToastKind {
        *self
    }
}
/// Answers to an invitation.
#[derive(Debug, Clone, Copy, PartialEq, Eq, Structural)]
pub enum InvitationResponse {
    Unanswered,
    Accepted,
    Tentative,
    Declined,
}

impl DeepView for InvitationResponse {
    type V = InvitationResponse;

    open spec fn deep_view(&self) -> InvitationResponse {
        *self
    }
}
/// How far signing in has come.
#[derive(Debug, PartialEq, Eq)]
pub enum AuthState {
    Idle,
    AwaitingCode { user_code: String, verification_uri: String },
    AwaitingGoogle { auth_url: String },
    Authenticated,
}

/// Mathematical form of [`AuthState`].
#[verifier::ext_equal]
pub enum AuthStateView {
    Idle,
    AwaitingCode { user_code: Seq<char>, verification_uri: Seq<char> },
    AwaitingGoogle { auth_url: Seq<char> },
    Authenticated,
}

impl DeepView for AuthState {
    type V = AuthStateView;

    open spec fn deep_view(&self) -> AuthStateView {
        match self {
            AuthState::Idle => AuthStateView::Idle,
            AuthState::AwaitingCode { user_code, verification_uri } => AuthStateView::AwaitingCode { user_code: user_code.deep_view(), verification_uri: verification_uri.deep_view() },
            AuthState::AwaitingGoogle { auth_url } => AuthStateView::AwaitingGoogle { auth_url: auth_url.deep_view() },
            AuthState::Authenticated => AuthStateView::Authenticated,
        }
    }
}

impl Clone for AuthState {
    fn clone(&self) -> (copy: Self)
        ensures
            copy.deep_view() == self.deep_view(),
    {
        match self {
            AuthState::Idle => AuthState::Idle,
            AuthState::AwaitingCode { user_code, verification_uri } => AuthState::AwaitingCode { user_code: user_code.clone(), verification_uri: verification_uri.clone() },
            AuthState::AwaitingGoogle { auth_url } => AuthState::AwaitingGoogle { auth_url: auth_url.clone() },
            AuthState::Authenticated => AuthState::Authenticated,
        }
    }
}
/// A file attached to a message; its bytes once they were fetched.
#[derive(Debug, PartialEq, Eq)]
pub struct Attachment {
    pub name: String,
    pub bytes: Option<Vec<u8>>,
}

/// Mathematical form of [`Attachment`].
#[verifier::ext_equal]
pub struct AttachmentView {
    pub name: Seq<char>,
    pub bytes: Option<Seq<u8>>,
}

impl DeepView for Attachment {
    type V = AttachmentView;

    open spec fn deep_view(&self) -> AttachmentView {
        AttachmentView {
            name: self.name.deep_view(),
            bytes: self.bytes.deep_view(),
        }
    }
}

impl Clone for Attachment {
    fn clone(&self) -> (copy: Self)
        ensures
            copy.deep_view() == self.deep_view(),
    {
        Attachment {
            name: self.name.clone(),
            bytes: crate::model::clone_bytes_option(&self.bytes),
        }
    }
}
/// A message with its body.
#[derive(Debug, PartialEq, Eq)]
pub struct Message {
    pub header: MessageHeader,
    pub body: String,
    pub raw_body: Option<String>,
    pub tags: Vec<String>,
    pub draft_id: Option<String>,
    pub inline_images: Vec<InlineImage>,
    pub attachments: Vec<Attachment>,
    pub invitation: Option<InvitationResponse>,
}

/// Mathematical form of [`Message`].
#[verifier::ext_equal]
pub struct MessageView {
    pub header: MessageHeaderView,
    pub body: Seq<char>,
    pub raw_body: Option<Seq<char>>,
    pub tags: Seq<Seq<char>>,
    pub draft_id: Option<Seq<char>>,
    pub inline_images: Seq<InlineImageView>,
    pub attachments: Seq<AttachmentView>,
    pub invitation: Option<InvitationResponse>,
}

impl DeepView for Message {
    type V = MessageView;

    open spec fn deep_view(&self) -> MessageView {
        MessageView {
            header: self.header.deep_view(),
            body: self.body.deep_view(),
            raw_body: self.raw_body.deep_view(),
            tags: self.tags.deep_view(),
            draft_id: self.draft_id.deep_view(),
            inline_images: self.inline_images.deep_view(),
            attachments: self.attachments.deep_view(),
            invitation: self.invitation,
        }
    }
}

impl Clone for Message {
    fn clone(&self) -> (copy: Self)
        ensures
            copy.deep_view() == self.deep_view(),
    {
        Message {
            header: self.header.clone(),
            body: self.body.clone(),
            raw_body: self.raw_body.clone(),
            tags: crate::model::clone_list(&self.tags),
            draft_id: self.draft_id.clone(),
            inline_images: crate::model::clone_list(&self.inline_images),
            attachments: crate::model::clone_list(&self.attachments),
            invitation: self.invitation,
        }
    }
}
/// A reply or forward that was sent, shown below the message it answers.
#[derive(Debug, PartialEq, Eq)]
pub struct SentMessage {
    pub related_to: String,
    pub action: LastAction,
    pub message: Message,
    pub sent_id: Option<String>,
    pub internet_message_id: Option<String>,
}

/// Mathematical form of [`SentMessage`].
#[verifier::ext_equal]
pub struct SentMessageView {
    pub related_to: Seq<char>,
    pub action: LastAction,
    pub message: MessageView,
    pub sent_id: Option<Seq<char>>,
    pub internet_message_id: Option<Seq<char>>,
}

impl DeepView for SentMessage {
    type V = SentMessageView;

    open spec fn deep_view(&self) -> SentMessageView {
        SentMessageView {
            related_to: self.related_to.deep_view(),
            action: self.action,
            message: self.message.deep_view(),
            sent_id: self.sent_id.deep_view(),
            internet_message_id: self.internet_message_id.deep_view(),
        }
    }
}

impl Clone for SentMessage {
    fn clone(&self) -> (copy: Self)
        ensures
            copy.deep_view() == self.deep_view(),
    {
        SentMessage {
            related_to: self.related_to.clone(),
            action: self.action,
            message: self.message.clone(),
            sent_id: self.sent_id.clone(),
            internet_message_id: self.internet_message_id.clone(),
        }
    }
}
/// Body of an older message of a conversation.
#[derive(Debug, PartialEq, Eq)]
pub enum ThreadBodyState {
    Loaded { message: Message },
    Error { error: String },
}

/// Mathematical form of [`ThreadBodyState`].
#[verifier::ext_equal]
pub enum ThreadBodyStateView {
    Loaded { message: MessageView },
    Error { error: Seq<char> },
}

impl DeepView for ThreadBodyState {
    type V = ThreadBodyStateView;

    open spec fn deep_view(&self) -> ThreadBodyStateView {
        match self {
            ThreadBodyState::Loaded { message } => ThreadBodyStateView::Loaded { message: message.deep_view() },
            ThreadBodyState::Error { error } => ThreadBodyStateView::Error { error: error.deep_view() },
        }
    }
}

impl Clone for ThreadBodyState {
    fn clone(&self) -> (copy: Self)
        ensures
            copy.deep_view() == self.deep_view(),
    {
        match self {
            ThreadBodyState::Loaded { message } => ThreadBodyState::Loaded { message: message.clone() },
            ThreadBodyState::Error { error } => ThreadBodyState::Error { error: error.clone() },
        }
    }
}
/// A tab of the reading pane.
#[derive(Debug, PartialEq, Eq)]
pub enum ViewerTab {
    Message { message: Message },
    Loading { reference: MessageRef },
    Compose { compose_id: u64 },
}

/// Mathematical form of [`ViewerTab`].
#[verifier::ext_equal]
pub enum ViewerTabView {
    Message { message: MessageView },
    Loading { reference: MessageRefView },
    Compose { compose_id: u64 },
}

impl DeepView for ViewerTab {
    type V = ViewerTabView;

    open spec fn deep_view(&self) -> ViewerTabView {
        match self {
            ViewerTab::Message { message } => ViewerTabView::Message { message: message.deep_view() },
            ViewerTab::Loading { reference } => ViewerTabView::Loading { reference: reference.deep_view() },
            ViewerTab::Compose { compose_id } => ViewerTabView::Compose { compose_id: *compose_id },
        }
    }
}

impl Clone for ViewerTab {
    fn clone(&self) -> (copy: Self)
        ensures
            copy.deep_view() == self.deep_view(),
    {
        match self {
            ViewerTab::Message { message } => ViewerTab::Message { message: message.clone() },
            ViewerTab::Loading { reference } => ViewerTab::Loading { reference: reference.clone() },
            ViewerTab::Compose { compose_id } => ViewerTab::Compose { compose_id: *compose_id },
        }
    }
}
/// Earlier mail of the sender of the message on display.
#[derive(Debug, PartialEq, Eq)]
pub enum SenderHistoryState {
    Idle,
    Loading { email: String },
    Loaded { email: String, messages: Vec<MessageHeader>, next: Option<String>, loading_more: bool },
}

/// Mathematical form of [`SenderHistoryState`].
#[verifier::ext_equal]
pub enum SenderHistoryStateView {
    Idle,
    Loading { email: Seq<char> },
    Loaded { email: Seq<char>, messages: Seq<MessageHeaderView>, next: Option<Seq<char>>, loading_more: bool },
}

impl DeepView for SenderHistoryState {
    type V = SenderHistoryStateView;

    open spec fn deep_view(&self) -> SenderHistoryStateView {
        match self {
            SenderHistoryState::Idle => SenderHistoryStateView::Idle,
            SenderHistoryState::Loading { email } => SenderHistoryStateView::Loading { email: email.deep_view() },
            SenderHistoryState::Loaded { email, messages, next, loading_more } => SenderHistoryStateView::Loaded { email: email.deep_view(), messages: messages.deep_view(), next: next.deep_view(), loading_more: *loading_more },
        }
    }
}

impl Clone for SenderHistoryState {
    fn clone(&self) -> (copy: Self)
        ensures
            copy.deep_view() == self.deep_view(),
    {
        match self {
            SenderHistoryState::Idle => SenderHistoryState::Idle,
            SenderHistoryState::Loading { email } => SenderHistoryState::Loading { email: email.clone() },
            SenderHistoryState::Loaded { email, messages, next, loading_more } => SenderHistoryState::Loaded { email: email.clone(), messages: crate::model::clone_list(messages), next: next.clone(), loading_more: *loading_more },
        }
    }
}
/// Changes of a message that a notification can tell of.
#[derive(Debug, Clone, Copy, PartialEq, Eq, Structural)]
pub enum MutationKind {
    Move,
    Delete,
    Other,
}

impl DeepView for MutationKind {
    type V = MutationKind;

    open spec fn deep_view(&self) -> MutationKind {
        *self
    }
}
/// What a notification offers to do.
#[derive(Debug, Clone, Copy, PartialEq, Eq, Structural)]
pub enum Offer {
    Nothing,
    CancelQuickAction,
    RetryRemaining,
    ContinueTriage,
}

impl DeepView for Offer {
    type V = Offer;

    open spec fn deep_view(&self) -> Offer {
        *self
    }
}
/// Words of a provider that are shown in short: `whole` is what the provider said, and what
/// is shown is cut from it where the notification is drawn.
#[derive(Debug, PartialEq, Eq)]
pub struct Shortened {
    pub whole: String,
}

/// Mathematical form of [`Shortened`].
#[verifier::ext_equal]
pub struct ShortenedView {
    pub whole: Seq<char>,
}

impl DeepView for Shortened {
    type V = ShortenedView;

    open spec fn deep_view(&self) -> ShortenedView {
        ShortenedView { whole: self.whole.deep_view() }
    }
}

impl Clone for Shortened {
    fn clone(&self) -> (copy: Self)
        ensures
            copy.deep_view() == self.deep_view(),
    {
        Shortened { whole: self.whole.clone() }
    }
}

/// Wording of a notification: an entry of the translation catalog and what goes into it. An
/// error goes in as it came, except where it is marked to be shortened.
#[derive(Debug, PartialEq, Eq)]
pub enum NoticeText {
    Key { key: &'static str },
    Named { key: &'static str, name: String },
    Failed { key: &'static str, error: String },
    NamedFailure { key: &'static str, name: String, cause: Shortened },
    NamedDelay { key: &'static str, name: String, seconds: u32 },
    Counted { key: &'static str, succeeded: usize, total: usize, failed: usize },
    Offline { key: &'static str, reason: Option<Shortened> },
    /// Text that came ready from elsewhere.
    Plain { text: String },
}

/// Mathematical form of [`NoticeText`].
#[verifier::ext_equal]
pub enum NoticeTextView {
    Key { key: Seq<char> },
    Named { key: Seq<char>, name: Seq<char> },
    Failed { key: Seq<char>, error: Seq<char> },
    NamedFailure { key: Seq<char>, name: Seq<char>, cause: ShortenedView },
    NamedDelay { key: Seq<char>, name: Seq<char>, seconds: u32 },
    Counted { key: Seq<char>, succeeded: usize, total: usize, failed: usize },
    Offline { key: Seq<char>, reason: Option<ShortenedView> },
    Plain { text: Seq<char> },
}

impl DeepView for NoticeText {
    type V = NoticeTextView;

    open spec fn deep_view(&self) -> NoticeTextView {
        match self {
            NoticeText::Key { key } => NoticeTextView::Key { key: key.deep_view() },
            NoticeText::Named { key, name } => NoticeTextView::Named { key: key.deep_view(), name: name.deep_view() },
            NoticeText::Failed { key, error } => NoticeTextView::Failed { key: key.deep_view(), error: error.deep_view() },
            NoticeText::NamedFailure { key, name, cause } => NoticeTextView::NamedFailure { key: key.deep_view(), name: name.deep_view(), cause: cause.deep_view() },
            NoticeText::NamedDelay { key, name, seconds } => NoticeTextView::NamedDelay { key: key.deep_view(), name: name.deep_view(), seconds: *seconds },
            NoticeText::Counted { key, succeeded, total, failed } => NoticeTextView::Counted { key: key.deep_view(), succeeded: *succeeded, total: *total, failed: *failed },
            NoticeText::Offline { key, reason } => NoticeTextView::Offline { key: key.deep_view(), reason: reason.deep_view() },
            NoticeText::Plain { text } => NoticeTextView::Plain { text: text.deep_view() },
        }
    }
}

impl Clone for NoticeText {
    fn clone(&self) -> (copy: Self)
        ensures
            copy.deep_view() == self.deep_view(),
    {
        match self {
            NoticeText::Key { key } => NoticeText::Key { key: *key },
            NoticeText::Named { key, name } => NoticeText::Named { key: *key, name: name.clone() },
            NoticeText::Failed { key, error } => NoticeText::Failed { key: *key, error: error.clone() },
            NoticeText::NamedFailure { key, name, cause } => NoticeText::NamedFailure { key: *key, name: name.clone(), cause: cause.clone() },
            NoticeText::NamedDelay { key, name, seconds } => NoticeText::NamedDelay { key: *key, name: name.clone(), seconds: *seconds },
            NoticeText::Counted { key, succeeded, total, failed } => NoticeText::Counted { key: *key, succeeded: *succeeded, total: *total, failed: *failed },
            NoticeText::Offline { key, reason } => NoticeText::Offline { key: *key, reason: reason.clone() },
            NoticeText::Plain { text } => NoticeText::Plain { text: text.clone() },
        }
    }
}
/// What a notification is about: a later one on the same topic takes its place.
#[derive(Debug, PartialEq, Eq)]
pub enum Topic {
    Nothing,
    Mutation { kind: MutationKind, reference: MessageRef },
    QuickAction { execution_id: u64 },
    Batch { key: Option<u64> },
}

/// Mathematical form of [`Topic`].
#[verifier::ext_equal]
pub enum TopicView {
    Nothing,
    Mutation { kind: MutationKind, reference: MessageRefView },
    QuickAction { execution_id: u64 },
    Batch { key: Option<u64> },
}

impl DeepView for Topic {
    type V = TopicView;

    open spec fn deep_view(&self) -> TopicView {
        match self {
            Topic::Nothing => TopicView::Nothing,
            Topic::Mutation { kind, reference } => TopicView::Mutation { kind: *kind, reference: reference.deep_view() },
            Topic::QuickAction { execution_id } => TopicView::QuickAction { execution_id: *execution_id },
            Topic::Batch { key } => TopicView::Batch { key: *key },
        }
    }
}

impl Clone for Topic {
    fn clone(&self) -> (copy: Self)
        ensures
            copy.deep_view() == self.deep_view(),
    {
        match self {
            Topic::Nothing => Topic::Nothing,
            Topic::Mutation { kind, reference } => Topic::Mutation { kind: *kind, reference: reference.clone() },
            Topic::QuickAction { execution_id } => Topic::QuickAction { execution_id: *execution_id },
            Topic::Batch { key } => Topic::Batch { key: *key },
        }
    }
}
/// A passing notification.
#[derive(Debug, PartialEq, Eq)]
pub struct Notice {
    pub kind: ToastKind,
    pub text: NoticeText,
    /// Words of the provider, below the text.
    pub detail: Option<Shortened>,
    /// Whether it stays until it is dismissed.
    pub stays: bool,
    pub topic: Topic,
    pub offer: Offer,
}

/// Mathematical form of [`Notice`].
#[verifier::ext_equal]
pub struct NoticeView {
    pub kind: ToastKind,
    pub text: NoticeTextView,
    pub detail: Option<ShortenedView>,
    pub stays: bool,
    pub topic: TopicView,
    pub offer: Offer,
}

impl DeepView for Notice {
    type V = NoticeView;

    open spec fn deep_view(&self) -> NoticeView {
        NoticeView {
            kind: self.kind,
            text: self.text.deep_view(),
            detail: self.detail.deep_view(),
            stays: self.stays,
            topic: self.topic.deep_view(),
            offer: self.offer,
        }
    }
}

impl Clone for Notice {
    fn clone(&self) -> (copy: Self)
        ensures
            copy.deep_view() == self.deep_view(),
    {
        Notice {
            kind: self.kind,
            text: self.text.clone(),
            detail: self.detail.clone(),
            stays: self.stays,
            topic: self.topic.clone(),
            offer: self.offer,
        }
    }
}
/// A mail that a quick action sends, before its body is rendered.
#[derive(Debug, PartialEq, Eq)]
pub struct OutgoingDraft {
    pub to: String,
    pub cc: String,
    pub bcc: String,
    pub subject: String,
    pub blocks: Vec<Block>,
    pub images: Vec<InlineImage>,
    pub files: Vec<Attachment>,
}

/// Mathematical form of [`OutgoingDraft`].
#[verifier::ext_equal]
pub struct OutgoingDraftView {
    pub to: Seq<char>,
    pub cc: Seq<char>,
    pub bcc: Seq<char>,
    pub subject: Seq<char>,
    pub blocks: Seq<BlockView>,
    pub images: Seq<InlineImageView>,
    pub files: Seq<AttachmentView>,
}

impl DeepView for OutgoingDraft {
    type V = OutgoingDraftView;

    open spec fn deep_view(&self) -> OutgoingDraftView {
        OutgoingDraftView {
            to: self.to.deep_view(),
            cc: self.cc.deep_view(),
            bcc: self.bcc.deep_view(),
            subject: self.subject.deep_view(),
            blocks: self.blocks.deep_view(),
            images: self.images.deep_view(),
            files: self.files.deep_view(),
        }
    }
}

impl Clone for OutgoingDraft {
    fn clone(&self) -> (copy: Self)
        ensures
            copy.deep_view() == self.deep_view(),
    {
        OutgoingDraft {
            to: self.to.clone(),
            cc: self.cc.clone(),
            bcc: self.bcc.clone(),
            subject: self.subject.clone(),
            blocks: crate::model::clone_list(&self.blocks),
            images: crate::model::clone_list(&self.images),
            files: crate::model::clone_list(&self.files),
        }
    }
}
/// A step of a quick action.
#[derive(Debug, PartialEq, Eq)]
pub enum QuickActionStep {
    Forward { mail: OutgoingDraft },
    Reply { mail: OutgoingDraft, reply_all: bool },
    RemoveTag { tag_id: String },
    AddTag { tag_id: String },
    MarkRead { read: bool },
    SetFlag { flagged: bool },
    Move { source_folder_id: Option<String>, target_folder_id: String },
}

/// Mathematical form of [`QuickActionStep`].
#[verifier::ext_equal]
pub enum QuickActionStepView {
    Forward { mail: OutgoingDraftView },
    Reply { mail: OutgoingDraftView, reply_all: bool },
    RemoveTag { tag_id: Seq<char> },
    AddTag { tag_id: Seq<char> },
    MarkRead { read: bool },
    SetFlag { flagged: bool },
    Move { source_folder_id: Option<Seq<char>>, target_folder_id: Seq<char> },
}

impl DeepView for QuickActionStep {
    type V = QuickActionStepView;

    open spec fn deep_view(&self) -> QuickActionStepView {
        match self {
            QuickActionStep::Forward { mail } => QuickActionStepView::Forward { mail: mail.deep_view() },
            QuickActionStep::Reply { mail, reply_all } => QuickActionStepView::Reply { mail: mail.deep_view(), reply_all: *reply_all },
            QuickActionStep::RemoveTag { tag_id } => QuickActionStepView::RemoveTag { tag_id: tag_id.deep_view() },
            QuickActionStep::AddTag { tag_id } => QuickActionStepView::AddTag { tag_id: tag_id.deep_view() },
            QuickActionStep::MarkRead { read } => QuickActionStepView::MarkRead { read: *read },
            QuickActionStep::SetFlag { flagged } => QuickActionStepView::SetFlag { flagged: *flagged },
            QuickActionStep::Move { source_folder_id, target_folder_id } => QuickActionStepView::Move { source_folder_id: source_folder_id.deep_view(), target_folder_id: target_folder_id.deep_view() },
        }
    }
}

impl Clone for QuickActionStep {
    fn clone(&self) -> (copy: Self)
        ensures
            copy.deep_view() == self.deep_view(),
    {
        match self {
            QuickActionStep::Forward { mail } => QuickActionStep::Forward { mail: mail.clone() },
            QuickActionStep::Reply { mail, reply_all } => QuickActionStep::Reply { mail: mail.clone(), reply_all: *reply_all },
            QuickActionStep::RemoveTag { tag_id } => QuickActionStep::RemoveTag { tag_id: tag_id.clone() },
            QuickActionStep::AddTag { tag_id } => QuickActionStep::AddTag { tag_id: tag_id.clone() },
            QuickActionStep::MarkRead { read } => QuickActionStep::MarkRead { read: *read },
            QuickActionStep::SetFlag { flagged } => QuickActionStep::SetFlag { flagged: *flagged },
            QuickActionStep::Move { source_folder_id, target_folder_id } => QuickActionStep::Move { source_folder_id: source_folder_id.clone(), target_folder_id: target_folder_id.clone() },
        }
    }
}
/// A quick action on its way to the provider.
#[derive(Debug, PartialEq, Eq)]
pub struct QuickActionExecution {
    pub execution_id: u64,
    pub action_name: String,
    pub message_id: String,
    pub steps: Vec<QuickActionStep>,
}

/// Mathematical form of [`QuickActionExecution`].
#[verifier::ext_equal]
pub struct QuickActionExecutionView {
    pub execution_id: u64,
    pub action_name: Seq<char>,
    pub message_id: Seq<char>,
    pub steps: Seq<QuickActionStepView>,
}

impl DeepView for QuickActionExecution {
    type V = QuickActionExecutionView;

    open spec fn deep_view(&self) -> QuickActionExecutionView {
        QuickActionExecutionView {
            execution_id: self.execution_id,
            action_name: self.action_name.deep_view(),
            message_id: self.message_id.deep_view(),
            steps: self.steps.deep_view(),
        }
    }
}

impl Clone for QuickActionExecution {
    fn clone(&self) -> (copy: Self)
        ensures
            copy.deep_view() == self.deep_view(),
    {
        QuickActionExecution {
            execution_id: self.execution_id,
            action_name: self.action_name.clone(),
            message_id: self.message_id.clone(),
            steps: crate::model::clone_list(&self.steps),
        }
    }
}
/// What a new message starts with.
#[derive(Debug, PartialEq, Eq)]
pub struct ComposeFields {
    pub to: String,
    pub cc: String,
    pub bcc: String,
    pub subject: String,
    pub body: String,
}

/// Mathematical form of [`ComposeFields`].
#[verifier::ext_equal]
pub struct ComposeFieldsView {
    pub to: Seq<char>,
    pub cc: Seq<char>,
    pub bcc: Seq<char>,
    pub subject: Seq<char>,
    pub body: Seq<char>,
}

impl DeepView for ComposeFields {
    type V = ComposeFieldsView;

    open spec fn deep_view(&self) -> ComposeFieldsView {
        ComposeFieldsView {
            to: self.to.deep_view(),
            cc: self.cc.deep_view(),
            bcc: self.bcc.deep_view(),
            subject: self.subject.deep_view(),
            body: self.body.deep_view(),
        }
    }
}

impl Clone for ComposeFields {
    fn clone(&self) -> (copy: Self)
        ensures
            copy.deep_view() == self.deep_view(),
    {
        ComposeFields {
            to: self.to.clone(),
            cc: self.cc.clone(),
            bcc: self.bcc.clone(),
            subject: self.subject.clone(),
            body: self.body.clone(),
        }
    }
}
/// An event of a calendar.
#[derive(Debug, PartialEq, Eq)]
pub struct CalendarEvent {
    pub account_id: AccountId,
    pub id: String,
    pub start: i128,
    pub end: i128,
}

/// Mathematical form of [`CalendarEvent`].
#[verifier::ext_equal]
pub struct CalendarEventView {
    pub account_id: Seq<char>,
    pub id: Seq<char>,
    pub start: i128,
    pub end: i128,
}

impl DeepView for CalendarEvent {
    type V = CalendarEventView;

    open spec fn deep_view(&self) -> CalendarEventView {
        CalendarEventView {
            account_id: self.account_id.deep_view(),
            id: self.id.deep_view(),
            start: self.start,
            end: self.end,
        }
    }
}

impl Clone for CalendarEvent {
    fn clone(&self) -> (copy: Self)
        ensures
            copy.deep_view() == self.deep_view(),
    {
        CalendarEvent {
            account_id: self.account_id.clone(),
            id: self.id.clone(),
            start: self.start,
            end: self.end,
        }
    }
}
/// How far the synchronisation of a subscribed calendar has come.
#[derive(Debug, PartialEq, Eq)]
pub struct IcalSyncStatus {
    pub syncing: bool,
    pub error: Option<String>,
    pub last_success: Option<i128>,
}

/// Mathematical form of [`IcalSyncStatus`].
#[verifier::ext_equal]
pub struct IcalSyncStatusView {
    pub syncing: bool,
    pub error: Option<Seq<char>>,
    pub last_success: Option<i128>,
}

impl DeepView for IcalSyncStatus {
    type V = IcalSyncStatusView;

    open spec fn deep_view(&self) -> IcalSyncStatusView {
        IcalSyncStatusView {
            syncing: self.syncing,
            error: self.error.deep_view(),
            last_success: self.last_success,
        }
    }
}

impl Clone for IcalSyncStatus {
    fn clone(&self) -> (copy: Self)
        ensures
            copy.deep_view() == self.deep_view(),
    {
        IcalSyncStatus {
            syncing: self.syncing,
            error: self.error.clone(),
            last_success: self.last_success,
        }
    }
}
/// A composer and the accounts that it writes from.
#[derive(Debug, PartialEq, Eq)]
pub struct ComposeHandle {
    pub id: u64,
    pub account_ids: Vec<AccountId>,
}

/// Mathematical form of [`ComposeHandle`].
#[verifier::ext_equal]
pub struct ComposeHandleView {
    pub id: u64,
    pub account_ids: Seq<Seq<char>>,
}

impl DeepView for ComposeHandle {
    type V = ComposeHandleView;

    open spec fn deep_view(&self) -> ComposeHandleView {
        ComposeHandleView {
            id: self.id,
            account_ids: self.account_ids.deep_view(),
        }
    }
}

impl Clone for ComposeHandle {
    fn clone(&self) -> (copy: Self)
        ensures
            copy.deep_view() == self.deep_view(),
    {
        ComposeHandle {
            id: self.id,
            account_ids: crate::model::clone_list(&self.account_ids),
        }
    }
}
/// A quick action that waits for the body of its message.
#[derive(Debug, PartialEq, Eq)]
pub struct PendingQuickAction {
    pub request_id: u64,
    pub action: QuickAction,
    pub source_folder_id: Option<String>,
    pub header: MessageHeader,
}

/// Mathematical form of [`PendingQuickAction`].
#[verifier::ext_equal]
pub struct PendingQuickActionView {
    pub request_id: u64,
    pub action: QuickActionView,
    pub source_folder_id: Option<Seq<char>>,
    pub header: MessageHeaderView,
}

impl DeepView for PendingQuickAction {
    type V = PendingQuickActionView;

    open spec fn deep_view(&self) -> PendingQuickActionView {
        PendingQuickActionView {
            request_id: self.request_id,
            action: self.action.deep_view(),
            source_folder_id: self.source_folder_id.deep_view(),
            header: self.header.deep_view(),
        }
    }
}

impl Clone for PendingQuickAction {
    fn clone(&self) -> (copy: Self)
        ensures
            copy.deep_view() == self.deep_view(),
    {
        PendingQuickAction {
            request_id: self.request_id,
            action: self.action.clone(),
            source_folder_id: self.source_folder_id.clone(),
            header: self.header.clone(),
        }
    }
}
/// Where a message can be put away to.
#[derive(Debug, Clone, Copy, PartialEq, Eq, Structural)]
pub enum Filing {
    Archive,
    Junk,
    Inbox,
    Bin,
}

impl DeepView for Filing {
    type V = Filing;

    open spec fn deep_view(&self) -> Filing {
        *self
    }
}
/// A message and how it is marked: as read, or as flagged.
#[derive(Debug, PartialEq, Eq)]
pub struct MessageMark {
    pub reference: MessageRef,
    pub marked: bool,
}

/// Mathematical form of [`MessageMark`].
#[verifier::ext_equal]
pub struct MessageMarkView {
    pub reference: MessageRefView,
    pub marked: bool,
}

impl DeepView for MessageMark {
    type V = MessageMarkView;

    open spec fn deep_view(&self) -> MessageMarkView {
        MessageMarkView {
            reference: self.reference.deep_view(),
            marked: self.marked,
        }
    }
}

impl Clone for MessageMark {
    fn clone(&self) -> (copy: Self)
        ensures
            copy.deep_view() == self.deep_view(),
    {
        MessageMark {
            reference: self.reference.clone(),
            marked: self.marked,
        }
    }
}
/// What the state asks of the world around it: requests to the mail runtime,
/// notifications, and work of views that hold no state here.
#[derive(Debug, PartialEq, Eq)]
pub enum Effect {
    SaveSettings,
    SendRefresh,
    RequestMailboxRefresh,
    /// Refreshing by itself starts anew, whatever was asked for it before.
    SyncAutoRefresh,
    UpdateTrayUnread,
    ReloadCalendar,
    RefreshContacts,
    Toast { notice: Notice },
    NotifyError { error: String },
    /// Tell of an error in words of the translation catalog.
    NotifyErrorKey { key: &'static str },
    /// The contacts of an account are loaded, unless they are there or on their way.
    EnsureContacts { account_id: AccountId },
    LoadFolders { account_id: AccountId },
    LoadTags { account_id: AccountId },
    /// The newest fifty messages with a tag.
    LoadTagListing { account_id: AccountId, tag_id: String, limit: usize },
    LoadThread { account_id: AccountId, conversation_id: String },
    /// Search an account, in the scope that the state of the search names.
    Search { account_id: AccountId, query: String, limit: usize },
    MarkRead { account_id: AccountId, id: String, read: bool },
    FetchSentCopy { account_id: AccountId, related_to: String, snapshot_id: String, sent_id: Option<String>, internet_message_id: Option<String> },
    LoadSenderHistory { account_id: AccountId, email: String, limit: usize },
    LoadMore { account_id: AccountId, folder_id: Option<String>, skip: usize, limit: usize },
    LoadMoreUnified { request_id: u64 },
    LoadQuickActionMessage { request_id: u64, account_id: AccountId, id: String },
    RehydrateMessages { account_id: AccountId },
    RestoreEventComposes,
    CloseCompose { compose_id: u64 },
    OpenMessage { account_id: AccountId, id: String },
    OpenTab { message: Message },
    OpenDraft { account_id: AccountId, message: Message },
    ReplyAll { account_id: AccountId, message: Message },
    Forward { account_id: AccountId, message: Message },
    Archive { account_id: AccountId, id: String },
    ForgetMessage { id: String },
    NotifyNewMessage { reference: MessageRef },
    NotifyNewMessages { count: usize },
    MoveToJunk { reference: MessageRef },
    LoadMoreSenderHistory { account_id: AccountId, email: String, next_link: String },
    FinishRehydrate { reference: MessageRef },
    DiscardRehydrate { account_id: AccountId },
    CloseOrphanedReplies { account_id: AccountId },
    MergeContacts { account_id: AccountId },
    SetPinned { account_id: AccountId, id: String, pinned: bool },
    ReplacePin { account_id: AccountId, id: String, new_id: Option<String> },
    EventComposeError { request_id: u64, error: String },
    CloseEventCompose { request_id: u64 },
    ComposeError { compose_id: u64, error: String },
    ComposeQueued { compose_id: u64 },
    ComposeDraftSaved { account_id: AccountId, compose_id: u64, draft_id: Option<String>, autosave: bool },
    ComposeDraftError { account_id: AccountId, compose_id: u64, error: String },
    ComposeAiChunk { compose_id: u64, delta: String },
    ComposeAiFinished { compose_id: u64, markdown: String },
    ComposeAiError { compose_id: u64, error: String },
    BeginQuickAction { account_id: AccountId, execution: QuickActionExecution },
    ScheduleQuickAction { account_id: AccountId, execution: QuickActionExecution, delay_secs: u32 },
    CompleteQuickAction { execution_id: u64 },
    CancelQuickAction { execution_id: u64 },
    FailQuickAction { execution_id: u64, completed_steps: usize },
    MessageMutationError { text: NoticeText, kind: MutationKind, reference: MessageRef },
    CalendarWindowFailed { scope: String, from: i128, to: i128 },
    ShowCalendarEvents { account_id: AccountId, from: i128, to: i128, events: Vec<CalendarEvent> },
    ShowFeedEvents { subscription_id: String, from: i128, to: i128, events: Vec<CalendarEvent> },
    /// Every editor tries again what proofreading failed to do.
    RetryProofreading,
    ShowAttachment { account_id: AccountId, message_id: String, attachment_id: String, bytes: Vec<u8> },
    AttachmentFailed { account_id: AccountId, message_id: String, attachment_id: String, error: String },
    /// How often recipients were written to is taken over by the address book.
    MergeUsage,
    /// What proofreading found is offered to one editor after the other, until one takes it;
    /// likewise what follows.
    OfferProofreading { editor_id: String, block_id: u64, revision: u64, checked: String },
    OfferProofreadingFailure { editor_id: String, block_id: u64, revision: u64 },
    OfferInlineImage { editor_id: String, cid: String, bytes: Vec<u8>, mime: String },
    OfferInlineImageFailure { editor_id: String, cid: String },
    PruneRowHover,
    CalendarScopeFailed { scope: String },
    InvalidateEventLayouts,
    ResetSettingsView,
    AccountContext { current: Option<AccountId> },
    ClearUsage,
    EnterView { view: MainView },
    ActivateWindow,
    MinimizeWindow,
    CloseTray,
    Quit,
    Compose { fields: ComposeFields },
    /// With the state before, for the time in which it can be undone.
    SetReadState { reference: MessageRef, read: bool, before: bool },
    SetFlag { reference: MessageRef, flagged: bool, before: bool },
    SetReadStates { marks: Vec<MessageMark>, read: bool },
    SetFlags { marks: Vec<MessageMark>, flagged: bool },
    File { reference: MessageRef, place: Filing },
    FileAll { references: Vec<MessageRef>, place: Filing },
    MoveTo { reference: MessageRef, source: Option<String>, target: String },
    MoveAllTo { references: Vec<MessageRef>, source: Option<String>, target: String },
    /// Pins all messages of a conversation, or unpins them.
    PinAll { references: Vec<MessageRef>, pinned: bool },
    Unsnooze { reference: MessageRef },
    ToggleSenderBlock { sender: String },
    SelectFolder { account: Option<AccountId>, folder_id: Option<String> },
    CreateFolder { account_id: AccountId, name: String, parent_id: Option<String> },
    RenameFolder { account_id: AccountId, folder: String, new_name: String },
    /// After the delay, in which it can be undone.
    DeleteFolder { account_id: AccountId, folder: String, delay_secs: u32 },
    CreateTag { account_id: AccountId, name: String },
    RenameTag { account_id: AccountId, tag_id: String, new_name: String },
    /// After the delay, in which it can be undone.
    DeleteTags { targets: Vec<MergedTagTarget>, delay_secs: u32 },
    /// Takes one tag from a message and gives it another; this can be undone.
    MoveCard { account_id: AccountId, card: MessageHeader, from_tag: String, to_tag: String },
    OpenInTab { reference: MessageRef },
    CancelReader,
}

/// Mathematical form of [`Effect`].
#[verifier::ext_equal]
pub enum EffectView {
    SaveSettings,
    SendRefresh,
    RequestMailboxRefresh,
    SyncAutoRefresh,
    UpdateTrayUnread,
    ReloadCalendar,
    RefreshContacts,
    Toast { notice: NoticeView },
    NotifyError { error: Seq<char> },
    NotifyErrorKey { key: Seq<char> },
    EnsureContacts { account_id: Seq<char> },
    LoadFolders { account_id: Seq<char> },
    LoadTags { account_id: Seq<char> },
    LoadTagListing { account_id: Seq<char>, tag_id: Seq<char>, limit: usize },
    LoadThread { account_id: Seq<char>, conversation_id: Seq<char> },
    Search { account_id: Seq<char>, query: Seq<char>, limit: usize },
    MarkRead { account_id: Seq<char>, id: Seq<char>, read: bool },
    FetchSentCopy { account_id: Seq<char>, related_to: Seq<char>, snapshot_id: Seq<char>, sent_id: Option<Seq<char>>, internet_message_id: Option<Seq<char>> },
    LoadSenderHistory { account_id: Seq<char>, email: Seq<char>, limit: usize },
    LoadMore { account_id: Seq<char>, folder_id: Option<Seq<char>>, skip: usize, limit: usize },
    LoadMoreUnified { request_id: u64 },
    LoadQuickActionMessage { request_id: u64, account_id: Seq<char>, id: Seq<char> },
    RehydrateMessages { account_id: Seq<char> },
    RestoreEventComposes,
    CloseCompose { compose_id: u64 },
    OpenMessage { account_id: Seq<char>, id: Seq<char> },
    OpenTab { message: MessageView },
    OpenDraft { account_id: Seq<char>, message: MessageView },
    ReplyAll { account_id: Seq<char>, message: MessageView },
    Forward { account_id: Seq<char>, message: MessageView },
    Archive { account_id: Seq<char>, id: Seq<char> },
    ForgetMessage { id: Seq<char> },
    NotifyNewMessage { reference: MessageRefView },
    NotifyNewMessages { count: usize },
    MoveToJunk { reference: MessageRefView },
    LoadMoreSenderHistory { account_id: Seq<char>, email: Seq<char>, next_link: Seq<char> },
    FinishRehydrate { reference: MessageRefView },
    DiscardRehydrate { account_id: Seq<char> },
    CloseOrphanedReplies { account_id: Seq<char> },
    MergeContacts { account_id: Seq<char> },
    SetPinned { account_id: Seq<char>, id: Seq<char>, pinned: bool },
    ReplacePin { account_id: Seq<char>, id: Seq<char>, new_id: Option<Seq<char>> },
    EventComposeError { request_id: u64, error: Seq<char> },
    CloseEventCompose { request_id: u64 },
    ComposeError { compose_id: u64, error: Seq<char> },
    ComposeQueued { compose_id: u64 },
    ComposeDraftSaved { account_id: Seq<char>, compose_id: u64, draft_id: Option<Seq<char>>, autosave: bool },
    ComposeDraftError { account_id: Seq<char>, compose_id: u64, error: Seq<char> },
    ComposeAiChunk { compose_id: u64, delta: Seq<char> },
    ComposeAiFinished { compose_id: u64, markdown: Seq<char> },
    ComposeAiError { compose_id: u64, error: Seq<char> },
    BeginQuickAction { account_id: Seq<char>, execution: QuickActionExecutionView },
    ScheduleQuickAction { account_id: Seq<char>, execution: QuickActionExecutionView, delay_secs: u32 },
    CompleteQuickAction { execution_id: u64 },
    CancelQuickAction { execution_id: u64 },
    FailQuickAction { execution_id: u64, completed_steps: usize },
    MessageMutationError { text: NoticeTextView, kind: MutationKind, reference: MessageRefView },
    CalendarWindowFailed { scope: Seq<char>, from: i128, to: i128 },
    ShowCalendarEvents { account_id: Seq<char>, from: i128, to: i128, events: Seq<CalendarEventView> },
    ShowFeedEvents { subscription_id: Seq<char>, from: i128, to: i128, events: Seq<CalendarEventView> },
    RetryProofreading,
    ShowAttachment { account_id: Seq<char>, message_id: Seq<char>, attachment_id: Seq<char>, bytes: Seq<u8> },
    AttachmentFailed { account_id: Seq<char>, message_id: Seq<char>, attachment_id: Seq<char>, error: Seq<char> },
    MergeUsage,
    OfferProofreading { editor_id: Seq<char>, block_id: u64, revision: u64, checked: Seq<char> },
    OfferProofreadingFailure { editor_id: Seq<char>, block_id: u64, revision: u64 },
    OfferInlineImage { editor_id: Seq<char>, cid: Seq<char>, bytes: Seq<u8>, mime: Seq<char> },
    OfferInlineImageFailure { editor_id: Seq<char>, cid: Seq<char> },
    PruneRowHover,
    CalendarScopeFailed { scope: Seq<char> },
    InvalidateEventLayouts,
    ResetSettingsView,
    AccountContext { current: Option<Seq<char>> },
    ClearUsage,
    EnterView { view: MainView },
    ActivateWindow,
    MinimizeWindow,
    CloseTray,
    Quit,
    Compose { fields: ComposeFieldsView },
    SetReadState { reference: MessageRefView, read: bool, before: bool },
    SetFlag { reference: MessageRefView, flagged: bool, before: bool },
    SetReadStates { marks: Seq<MessageMarkView>, read: bool },
    SetFlags { marks: Seq<MessageMarkView>, flagged: bool },
    File { reference: MessageRefView, place: Filing },
    FileAll { references: Seq<MessageRefView>, place: Filing },
    MoveTo { reference: MessageRefView, source: Option<Seq<char>>, target: Seq<char> },
    MoveAllTo { references: Seq<MessageRefView>, source: Option<Seq<char>>, target: Seq<char> },
    PinAll { references: Seq<MessageRefView>, pinned: bool },
    Unsnooze { reference: MessageRefView },
    ToggleSenderBlock { sender: Seq<char> },
    SelectFolder { account: Option<Seq<char>>, folder_id: Option<Seq<char>> },
    CreateFolder { account_id: Seq<char>, name: Seq<char>, parent_id: Option<Seq<char>> },
    RenameFolder { account_id: Seq<char>, folder: Seq<char>, new_name: Seq<char> },
    DeleteFolder { account_id: Seq<char>, folder: Seq<char>, delay_secs: u32 },
    CreateTag { account_id: Seq<char>, name: Seq<char> },
    RenameTag { account_id: Seq<char>, tag_id: Seq<char>, new_name: Seq<char> },
    DeleteTags { targets: Seq<MergedTagTargetView>, delay_secs: u32 },
    MoveCard { account_id: Seq<char>, card: MessageHeaderView, from_tag: Seq<char>, to_tag: Seq<char> },
    OpenInTab { reference: MessageRefView },
    CancelReader,
}

impl DeepView for Effect {
    type V = EffectView;

    open spec fn deep_view(&self) -> EffectView {
        match self {
            Effect::SaveSettings => EffectView::SaveSettings,
            Effect::SendRefresh => EffectView::SendRefresh,
            Effect::RequestMailboxRefresh => EffectView::RequestMailboxRefresh,
            Effect::SyncAutoRefresh => EffectView::SyncAutoRefresh,
            Effect::UpdateTrayUnread => EffectView::UpdateTrayUnread,
            Effect::ReloadCalendar => EffectView::ReloadCalendar,
            Effect::RefreshContacts => EffectView::RefreshContacts,
            Effect::Toast { notice } => EffectView::Toast { notice: notice.deep_view() },
            Effect::NotifyError { error } => EffectView::NotifyError { error: error.deep_view() },
            Effect::NotifyErrorKey { key } => EffectView::NotifyErrorKey { key: key.deep_view() },
            Effect::EnsureContacts { account_id } => EffectView::EnsureContacts { account_id: account_id.deep_view() },
            Effect::LoadFolders { account_id } => EffectView::LoadFolders { account_id: account_id.deep_view() },
            Effect::LoadTags { account_id } => EffectView::LoadTags { account_id: account_id.deep_view() },
            Effect::LoadTagListing { account_id, tag_id, limit } => EffectView::LoadTagListing { account_id: account_id.deep_view(), tag_id: tag_id.deep_view(), limit: *limit },
            Effect::LoadThread { account_id, conversation_id } => EffectView::LoadThread { account_id: account_id.deep_view(), conversation_id: conversation_id.deep_view() },
            Effect::Search { account_id, query, limit } => EffectView::Search { account_id: account_id.deep_view(), query: query.deep_view(), limit: *limit },
            Effect::MarkRead { account_id, id, read } => EffectView::MarkRead { account_id: account_id.deep_view(), id: id.deep_view(), read: *read },
            Effect::FetchSentCopy { account_id, related_to, snapshot_id, sent_id, internet_message_id } => EffectView::FetchSentCopy { account_id: account_id.deep_view(), related_to: related_to.deep_view(), snapshot_id: snapshot_id.deep_view(), sent_id: sent_id.deep_view(), internet_message_id: internet_message_id.deep_view() },
            Effect::LoadSenderHistory { account_id, email, limit } => EffectView::LoadSenderHistory { account_id: account_id.deep_view(), email: email.deep_view(), limit: *limit },
            Effect::LoadMore { account_id, folder_id, skip, limit } => EffectView::LoadMore { account_id: account_id.deep_view(), folder_id: folder_id.deep_view(), skip: *skip, limit: *limit },
            Effect::LoadMoreUnified { request_id } => EffectView::LoadMoreUnified { request_id: *request_id },
            Effect::LoadQuickActionMessage { request_id, account_id, id } => EffectView::LoadQuickActionMessage { request_id: *request_id, account_id: account_id.deep_view(), id: id.deep_view() },
            Effect::RehydrateMessages { account_id } => EffectView::RehydrateMessages { account_id: account_id.deep_view() },
            Effect::RestoreEventComposes => EffectView::RestoreEventComposes,
            Effect::CloseCompose { compose_id } => EffectView::CloseCompose { compose_id: *compose_id },
            Effect::OpenMessage { account_id, id } => EffectView::OpenMessage { account_id: account_id.deep_view(), id: id.deep_view() },
            Effect::OpenTab { message } => EffectView::OpenTab { message: message.deep_view() },
            Effect::OpenDraft { account_id, message } => EffectView::OpenDraft { account_id: account_id.deep_view(), message: message.deep_view() },
            Effect::ReplyAll { account_id, message } => EffectView::ReplyAll { account_id: account_id.deep_view(), message: message.deep_view() },
            Effect::Forward { account_id, message } => EffectView::Forward { account_id: account_id.deep_view(), message: message.deep_view() },
            Effect::Archive { account_id, id } => EffectView::Archive { account_id: account_id.deep_view(), id: id.deep_view() },
            Effect::ForgetMessage { id } => EffectView::ForgetMessage { id: id.deep_view() },
            Effect::NotifyNewMessage { reference } => EffectView::NotifyNewMessage { reference: reference.deep_view() },
            Effect::NotifyNewMessages { count } => EffectView::NotifyNewMessages { count: *count },
            Effect::MoveToJunk { reference } => EffectView::MoveToJunk { reference: reference.deep_view() },
            Effect::LoadMoreSenderHistory { account_id, email, next_link } => EffectView::LoadMoreSenderHistory { account_id: account_id.deep_view(), email: email.deep_view(), next_link: next_link.deep_view() },
            Effect::FinishRehydrate { reference } => EffectView::FinishRehydrate { reference: reference.deep_view() },
            Effect::DiscardRehydrate { account_id } => EffectView::DiscardRehydrate { account_id: account_id.deep_view() },
            Effect::CloseOrphanedReplies { account_id } => EffectView::CloseOrphanedReplies { account_id: account_id.deep_view() },
            Effect::MergeContacts { account_id } => EffectView::MergeContacts { account_id: account_id.deep_view() },
            Effect::SetPinned { account_id, id, pinned } => EffectView::SetPinned { account_id: account_id.deep_view(), id: id.deep_view(), pinned: *pinned },
            Effect::ReplacePin { account_id, id, new_id } => EffectView::ReplacePin { account_id: account_id.deep_view(), id: id.deep_view(), new_id: new_id.deep_view() },
            Effect::EventComposeError { request_id, error } => EffectView::EventComposeError { request_id: *request_id, error: error.deep_view() },
            Effect::CloseEventCompose { request_id } => EffectView::CloseEventCompose { request_id: *request_id },
            Effect::ComposeError { compose_id, error } => EffectView::ComposeError { compose_id: *compose_id, error: error.deep_view() },
            Effect::ComposeQueued { compose_id } => EffectView::ComposeQueued { compose_id: *compose_id },
            Effect::ComposeDraftSaved { account_id, compose_id, draft_id, autosave } => EffectView::ComposeDraftSaved { account_id: account_id.deep_view(), compose_id: *compose_id, draft_id: draft_id.deep_view(), autosave: *autosave },
            Effect::ComposeDraftError { account_id, compose_id, error } => EffectView::ComposeDraftError { account_id: account_id.deep_view(), compose_id: *compose_id, error: error.deep_view() },
            Effect::ComposeAiChunk { compose_id, delta } => EffectView::ComposeAiChunk { compose_id: *compose_id, delta: delta.deep_view() },
            Effect::ComposeAiFinished { compose_id, markdown } => EffectView::ComposeAiFinished { compose_id: *compose_id, markdown: markdown.deep_view() },
            Effect::ComposeAiError { compose_id, error } => EffectView::ComposeAiError { compose_id: *compose_id, error: error.deep_view() },
            Effect::BeginQuickAction { account_id, execution } => EffectView::BeginQuickAction { account_id: account_id.deep_view(), execution: execution.deep_view() },
            Effect::ScheduleQuickAction { account_id, execution, delay_secs } => EffectView::ScheduleQuickAction { account_id: account_id.deep_view(), execution: execution.deep_view(), delay_secs: *delay_secs },
            Effect::CompleteQuickAction { execution_id } => EffectView::CompleteQuickAction { execution_id: *execution_id },
            Effect::CancelQuickAction { execution_id } => EffectView::CancelQuickAction { execution_id: *execution_id },
            Effect::FailQuickAction { execution_id, completed_steps } => EffectView::FailQuickAction { execution_id: *execution_id, completed_steps: *completed_steps },
            Effect::MessageMutationError { text, kind, reference } => EffectView::MessageMutationError { text: text.deep_view(), kind: *kind, reference: reference.deep_view() },
            Effect::CalendarWindowFailed { scope, from, to } => EffectView::CalendarWindowFailed { scope: scope.deep_view(), from: *from, to: *to },
            Effect::ShowCalendarEvents { account_id, from, to, events } => EffectView::ShowCalendarEvents { account_id: account_id.deep_view(), from: *from, to: *to, events: events.deep_view() },
            Effect::ShowFeedEvents { subscription_id, from, to, events } => EffectView::ShowFeedEvents { subscription_id: subscription_id.deep_view(), from: *from, to: *to, events: events.deep_view() },
            Effect::RetryProofreading => EffectView::RetryProofreading,
            Effect::ShowAttachment { account_id, message_id, attachment_id, bytes } => EffectView::ShowAttachment { account_id: account_id.deep_view(), message_id: message_id.deep_view(), attachment_id: attachment_id.deep_view(), bytes: bytes.deep_view() },
            Effect::AttachmentFailed { account_id, message_id, attachment_id, error } => EffectView::AttachmentFailed { account_id: account_id.deep_view(), message_id: message_id.deep_view(), attachment_id: attachment_id.deep_view(), error: error.deep_view() },
            Effect::MergeUsage => EffectView::MergeUsage,
            Effect::OfferProofreading { editor_id, block_id, revision, checked } => EffectView::OfferProofreading { editor_id: editor_id.deep_view(), block_id: *block_id, revision: *revision, checked: checked.deep_view() },
            Effect::OfferProofreadingFailure { editor_id, block_id, revision } => EffectView::OfferProofreadingFailure { editor_id: editor_id.deep_view(), block_id: *block_id, revision: *revision },
            Effect::OfferInlineImage { editor_id, cid, bytes, mime } => EffectView::OfferInlineImage { editor_id: editor_id.deep_view(), cid: cid.deep_view(), bytes: bytes.deep_view(), mime: mime.deep_view() },
            Effect::OfferInlineImageFailure { editor_id, cid } => EffectView::OfferInlineImageFailure { editor_id: editor_id.deep_view(), cid: cid.deep_view() },
            Effect::PruneRowHover => EffectView::PruneRowHover,
            Effect::CalendarScopeFailed { scope } => EffectView::CalendarScopeFailed { scope: scope.deep_view() },
            Effect::InvalidateEventLayouts => EffectView::InvalidateEventLayouts,
            Effect::ResetSettingsView => EffectView::ResetSettingsView,
            Effect::AccountContext { current } => EffectView::AccountContext { current: current.deep_view() },
            Effect::ClearUsage => EffectView::ClearUsage,
            Effect::EnterView { view } => EffectView::EnterView { view: *view },
            Effect::ActivateWindow => EffectView::ActivateWindow,
            Effect::MinimizeWindow => EffectView::MinimizeWindow,
            Effect::CloseTray => EffectView::CloseTray,
            Effect::Quit => EffectView::Quit,
            Effect::Compose { fields } => EffectView::Compose { fields: fields.deep_view() },
            Effect::SetReadState { reference, read, before } => EffectView::SetReadState { reference: reference.deep_view(), read: *read, before: *before },
            Effect::SetFlag { reference, flagged, before } => EffectView::SetFlag { reference: reference.deep_view(), flagged: *flagged, before: *before },
            Effect::SetReadStates { marks, read } => EffectView::SetReadStates { marks: marks.deep_view(), read: *read },
            Effect::SetFlags { marks, flagged } => EffectView::SetFlags { marks: marks.deep_view(), flagged: *flagged },
            Effect::File { reference, place } => EffectView::File { reference: reference.deep_view(), place: *place },
            Effect::FileAll { references, place } => EffectView::FileAll { references: references.deep_view(), place: *place },
            Effect::MoveTo { reference, source, target } => EffectView::MoveTo { reference: reference.deep_view(), source: source.deep_view(), target: target.deep_view() },
            Effect::MoveAllTo { references, source, target } => EffectView::MoveAllTo { references: references.deep_view(), source: source.deep_view(), target: target.deep_view() },
            Effect::PinAll { references, pinned } => EffectView::PinAll { references: references.deep_view(), pinned: *pinned },
            Effect::Unsnooze { reference } => EffectView::Unsnooze { reference: reference.deep_view() },
            Effect::ToggleSenderBlock { sender } => EffectView::ToggleSenderBlock { sender: sender.deep_view() },
            Effect::SelectFolder { account, folder_id } => EffectView::SelectFolder { account: account.deep_view(), folder_id: folder_id.deep_view() },
            Effect::CreateFolder { account_id, name, parent_id } => EffectView::CreateFolder { account_id: account_id.deep_view(), name: name.deep_view(), parent_id: parent_id.deep_view() },
            Effect::RenameFolder { account_id, folder, new_name } => EffectView::RenameFolder { account_id: account_id.deep_view(), folder: folder.deep_view(), new_name: new_name.deep_view() },
            Effect::DeleteFolder { account_id, folder, delay_secs } => EffectView::DeleteFolder { account_id: account_id.deep_view(), folder: folder.deep_view(), delay_secs: *delay_secs },
            Effect::CreateTag { account_id, name } => EffectView::CreateTag { account_id: account_id.deep_view(), name: name.deep_view() },
            Effect::RenameTag { account_id, tag_id, new_name } => EffectView::RenameTag { account_id: account_id.deep_view(), tag_id: tag_id.deep_view(), new_name: new_name.deep_view() },
            Effect::DeleteTags { targets, delay_secs } => EffectView::DeleteTags { targets: targets.deep_view(), delay_secs: *delay_secs },
            Effect::MoveCard { account_id, card, from_tag, to_tag } => EffectView::MoveCard { account_id: account_id.deep_view(), card: card.deep_view(), from_tag: from_tag.deep_view(), to_tag: to_tag.deep_view() },
            Effect::OpenInTab { reference } => EffectView::OpenInTab { reference: reference.deep_view() },
            Effect::CancelReader => EffectView::CancelReader,
        }
    }
}

impl Clone for Effect {
    fn clone(&self) -> (copy: Self)
        ensures
            copy.deep_view() == self.deep_view(),
    {
        match self {
            Effect::SaveSettings => Effect::SaveSettings,
            Effect::SendRefresh => Effect::SendRefresh,
            Effect::RequestMailboxRefresh => Effect::RequestMailboxRefresh,
            Effect::SyncAutoRefresh => Effect::SyncAutoRefresh,
            Effect::UpdateTrayUnread => Effect::UpdateTrayUnread,
            Effect::ReloadCalendar => Effect::ReloadCalendar,
            Effect::RefreshContacts => Effect::RefreshContacts,
            Effect::Toast { notice } => Effect::Toast { notice: notice.clone() },
            Effect::NotifyError { error } => Effect::NotifyError { error: error.clone() },
            Effect::NotifyErrorKey { key } => Effect::NotifyErrorKey { key: *key },
            Effect::EnsureContacts { account_id } => Effect::EnsureContacts { account_id: account_id.clone() },
            Effect::LoadFolders { account_id } => Effect::LoadFolders { account_id: account_id.clone() },
            Effect::LoadTags { account_id } => Effect::LoadTags { account_id: account_id.clone() },
            Effect::LoadTagListing { account_id, tag_id, limit } => Effect::LoadTagListing { account_id: account_id.clone(), tag_id: tag_id.clone(), limit: *limit },
            Effect::LoadThread { account_id, conversation_id } => Effect::LoadThread { account_id: account_id.clone(), conversation_id: conversation_id.clone() },
            Effect::Search { account_id, query, limit } => Effect::Search { account_id: account_id.clone(), query: query.clone(), limit: *limit },
            Effect::MarkRead { account_id, id, read } => Effect::MarkRead { account_id: account_id.clone(), id: id.clone(), read: *read },
            Effect::FetchSentCopy { account_id, related_to, snapshot_id, sent_id, internet_message_id } => Effect::FetchSentCopy { account_id: account_id.clone(), related_to: related_to.clone(), snapshot_id: snapshot_id.clone(), sent_id: sent_id.clone(), internet_message_id: internet_message_id.clone() },
            Effect::LoadSenderHistory { account_id, email, limit } => Effect::LoadSenderHistory { account_id: account_id.clone(), email: email.clone(), limit: *limit },
            Effect::LoadMore { account_id, folder_id, skip, limit } => Effect::LoadMore { account_id: account_id.clone(), folder_id: folder_id.clone(), skip: *skip, limit: *limit },
            Effect::LoadMoreUnified { request_id } => Effect::LoadMoreUnified { request_id: *request_id },
            Effect::LoadQuickActionMessage { request_id, account_id, id } => Effect::LoadQuickActionMessage { request_id: *request_id, account_id: account_id.clone(), id: id.clone() },
            Effect::RehydrateMessages { account_id } => Effect::RehydrateMessages { account_id: account_id.clone() },
            Effect::RestoreEventComposes => Effect::RestoreEventComposes,
            Effect::CloseCompose { compose_id } => Effect::CloseCompose { compose_id: *compose_id },
            Effect::OpenMessage { account_id, id } => Effect::OpenMessage { account_id: account_id.clone(), id: id.clone() },
            Effect::OpenTab { message } => Effect::OpenTab { message: message.clone() },
            Effect::OpenDraft { account_id, message } => Effect::OpenDraft { account_id: account_id.clone(), message: message.clone() },
            Effect::ReplyAll { account_id, message } => Effect::ReplyAll { account_id: account_id.clone(), message: message.clone() },
            Effect::Forward { account_id, message } => Effect::Forward { account_id: account_id.clone(), message: message.clone() },
            Effect::Archive { account_id, id } => Effect::Archive { account_id: account_id.clone(), id: id.clone() },
            Effect::ForgetMessage { id } => Effect::ForgetMessage { id: id.clone() },
            Effect::NotifyNewMessage { reference } => Effect::NotifyNewMessage { reference: reference.clone() },
            Effect::NotifyNewMessages { count } => Effect::NotifyNewMessages { count: *count },
            Effect::MoveToJunk { reference } => Effect::MoveToJunk { reference: reference.clone() },
            Effect::LoadMoreSenderHistory { account_id, email, next_link } => Effect::LoadMoreSenderHistory { account_id: account_id.clone(), email: email.clone(), next_link: next_link.clone() },
            Effect::FinishRehydrate { reference } => Effect::FinishRehydrate { reference: reference.clone() },
            Effect::DiscardRehydrate { account_id } => Effect::DiscardRehydrate { account_id: account_id.clone() },
            Effect::CloseOrphanedReplies { account_id } => Effect::CloseOrphanedReplies { account_id: account_id.clone() },
            Effect::MergeContacts { account_id } => Effect::MergeContacts { account_id: account_id.clone() },
            Effect::SetPinned { account_id, id, pinned } => Effect::SetPinned { account_id: account_id.clone(), id: id.clone(), pinned: *pinned },
            Effect::ReplacePin { account_id, id, new_id } => Effect::ReplacePin { account_id: account_id.clone(), id: id.clone(), new_id: new_id.clone() },
            Effect::EventComposeError { request_id, error } => Effect::EventComposeError { request_id: *request_id, error: error.clone() },
            Effect::CloseEventCompose { request_id } => Effect::CloseEventCompose { request_id: *request_id },
            Effect::ComposeError { compose_id, error } => Effect::ComposeError { compose_id: *compose_id, error: error.clone() },
            Effect::ComposeQueued { compose_id } => Effect::ComposeQueued { compose_id: *compose_id },
            Effect::ComposeDraftSaved { account_id, compose_id, draft_id, autosave } => Effect::ComposeDraftSaved { account_id: account_id.clone(), compose_id: *compose_id, draft_id: draft_id.clone(), autosave: *autosave },
            Effect::ComposeDraftError { account_id, compose_id, error } => Effect::ComposeDraftError { account_id: account_id.clone(), compose_id: *compose_id, error: error.clone() },
            Effect::ComposeAiChunk { compose_id, delta } => Effect::ComposeAiChunk { compose_id: *compose_id, delta: delta.clone() },
            Effect::ComposeAiFinished { compose_id, markdown } => Effect::ComposeAiFinished { compose_id: *compose_id, markdown: markdown.clone() },
            Effect::ComposeAiError { compose_id, error } => Effect::ComposeAiError { compose_id: *compose_id, error: error.clone() },
            Effect::BeginQuickAction { account_id, execution } => Effect::BeginQuickAction { account_id: account_id.clone(), execution: execution.clone() },
            Effect::ScheduleQuickAction { account_id, execution, delay_secs } => Effect::ScheduleQuickAction { account_id: account_id.clone(), execution: execution.clone(), delay_secs: *delay_secs },
            Effect::CompleteQuickAction { execution_id } => Effect::CompleteQuickAction { execution_id: *execution_id },
            Effect::CancelQuickAction { execution_id } => Effect::CancelQuickAction { execution_id: *execution_id },
            Effect::FailQuickAction { execution_id, completed_steps } => Effect::FailQuickAction { execution_id: *execution_id, completed_steps: *completed_steps },
            Effect::MessageMutationError { text, kind, reference } => Effect::MessageMutationError { text: text.clone(), kind: *kind, reference: reference.clone() },
            Effect::CalendarWindowFailed { scope, from, to } => Effect::CalendarWindowFailed { scope: scope.clone(), from: *from, to: *to },
            Effect::ShowCalendarEvents { account_id, from, to, events } => Effect::ShowCalendarEvents { account_id: account_id.clone(), from: *from, to: *to, events: clone_list(events) },
            Effect::ShowFeedEvents { subscription_id, from, to, events } => Effect::ShowFeedEvents { subscription_id: subscription_id.clone(), from: *from, to: *to, events: clone_list(events) },
            Effect::RetryProofreading => Effect::RetryProofreading,
            Effect::ShowAttachment { account_id, message_id, attachment_id, bytes } => Effect::ShowAttachment { account_id: account_id.clone(), message_id: message_id.clone(), attachment_id: attachment_id.clone(), bytes: clone_list(bytes) },
            Effect::AttachmentFailed { account_id, message_id, attachment_id, error } => Effect::AttachmentFailed { account_id: account_id.clone(), message_id: message_id.clone(), attachment_id: attachment_id.clone(), error: error.clone() },
            Effect::MergeUsage => Effect::MergeUsage,
            Effect::OfferProofreading { editor_id, block_id, revision, checked } => Effect::OfferProofreading { editor_id: editor_id.clone(), block_id: *block_id, revision: *revision, checked: checked.clone() },
            Effect::OfferProofreadingFailure { editor_id, block_id, revision } => Effect::OfferProofreadingFailure { editor_id: editor_id.clone(), block_id: *block_id, revision: *revision },
            Effect::OfferInlineImage { editor_id, cid, bytes, mime } => Effect::OfferInlineImage { editor_id: editor_id.clone(), cid: cid.clone(), bytes: clone_list(bytes), mime: mime.clone() },
            Effect::OfferInlineImageFailure { editor_id, cid } => Effect::OfferInlineImageFailure { editor_id: editor_id.clone(), cid: cid.clone() },
            Effect::PruneRowHover => Effect::PruneRowHover,
            Effect::CalendarScopeFailed { scope } => Effect::CalendarScopeFailed { scope: scope.clone() },
            Effect::InvalidateEventLayouts => Effect::InvalidateEventLayouts,
            Effect::ResetSettingsView => Effect::ResetSettingsView,
            Effect::AccountContext { current } => Effect::AccountContext { current: current.clone() },
            Effect::ClearUsage => Effect::ClearUsage,
            Effect::EnterView { view } => Effect::EnterView { view: *view },
            Effect::ActivateWindow => Effect::ActivateWindow,
            Effect::MinimizeWindow => Effect::MinimizeWindow,
            Effect::CloseTray => Effect::CloseTray,
            Effect::Quit => Effect::Quit,
            Effect::Compose { fields } => Effect::Compose { fields: fields.clone() },
            Effect::SetReadState { reference, read, before } => Effect::SetReadState { reference: reference.clone(), read: *read, before: *before },
            Effect::SetFlag { reference, flagged, before } => Effect::SetFlag { reference: reference.clone(), flagged: *flagged, before: *before },
            Effect::SetReadStates { marks, read } => Effect::SetReadStates { marks: crate::model::clone_list(marks), read: *read },
            Effect::SetFlags { marks, flagged } => Effect::SetFlags { marks: crate::model::clone_list(marks), flagged: *flagged },
            Effect::File { reference, place } => Effect::File { reference: reference.clone(), place: *place },
            Effect::FileAll { references, place } => Effect::FileAll { references: crate::model::clone_list(references), place: *place },
            Effect::MoveTo { reference, source, target } => Effect::MoveTo { reference: reference.clone(), source: source.clone(), target: target.clone() },
            Effect::MoveAllTo { references, source, target } => Effect::MoveAllTo { references: crate::model::clone_list(references), source: source.clone(), target: target.clone() },
            Effect::PinAll { references, pinned } => Effect::PinAll { references: crate::model::clone_list(references), pinned: *pinned },
            Effect::Unsnooze { reference } => Effect::Unsnooze { reference: reference.clone() },
            Effect::ToggleSenderBlock { sender } => Effect::ToggleSenderBlock { sender: sender.clone() },
            Effect::SelectFolder { account, folder_id } => Effect::SelectFolder { account: account.clone(), folder_id: folder_id.clone() },
            Effect::CreateFolder { account_id, name, parent_id } => Effect::CreateFolder { account_id: account_id.clone(), name: name.clone(), parent_id: parent_id.clone() },
            Effect::RenameFolder { account_id, folder, new_name } => Effect::RenameFolder { account_id: account_id.clone(), folder: folder.clone(), new_name: new_name.clone() },
            Effect::DeleteFolder { account_id, folder, delay_secs } => Effect::DeleteFolder { account_id: account_id.clone(), folder: folder.clone(), delay_secs: *delay_secs },
            Effect::CreateTag { account_id, name } => Effect::CreateTag { account_id: account_id.clone(), name: name.clone() },
            Effect::RenameTag { account_id, tag_id, new_name } => Effect::RenameTag { account_id: account_id.clone(), tag_id: tag_id.clone(), new_name: new_name.clone() },
            Effect::DeleteTags { targets, delay_secs } => Effect::DeleteTags { targets: crate::model::clone_list(targets), delay_secs: *delay_secs },
            Effect::MoveCard { account_id, card, from_tag, to_tag } => Effect::MoveCard { account_id: account_id.clone(), card: card.clone(), from_tag: from_tag.clone(), to_tag: to_tag.clone() },
            Effect::OpenInTab { reference } => Effect::OpenInTab { reference: reference.clone() },
            Effect::CancelReader => Effect::CancelReader,
        }
    }
}

/// What the search field shows and what it found.
#[derive(Debug)]
pub struct SearchState {
    pub query: String,
    pub history: Vec<String>,
    pub results: Option<Vec<MessageHeader>>,
    pub menu_open: bool,
    pub menu_selection: Option<usize>,
    pub sort: MailSearchSort,
    pub scope: MailSearchScope,
}

/// How much of the list was fetched.
#[derive(Debug, Clone, Copy, PartialEq, Eq, Structural)]
pub struct PaginationState {
    pub has_more: bool,
    pub loading_more: bool,
    pub last_request_len: Option<usize>,
    pub unified_request_id: u64,
}

/// What the reading pane shows.
#[derive(Debug)]
pub struct ViewerState {
    pub selected: Option<Message>,
    pub selected_id: Option<String>,
    pub thread: Option<(String, Vec<MessageHeader>)>,
    pub thread_bodies: Vec<(String, ThreadBodyState)>,
    pub open_tabs: Vec<ViewerTab>,
    pub active_tab: Option<usize>,
}

/// Replies and forwards of this session, by the message they answer.
#[derive(Debug)]
pub struct SentState {
    pub messages: Vec<(String, Vec<SentMessage>)>,
    pub expanded: Vec<String>,
}

/// The messages that bulk actions apply to.
#[derive(Debug)]
pub struct SelectionState {
    pub messages: Vec<MessageRef>,
    pub anchor: Option<MessageRef>,
}

/// What the list leaves out.
#[derive(Debug)]
pub struct FilterState {
    pub tag_filters: AccountMap<Vec<String>>,
    pub show_flagged_only: bool,
    pub show_snoozed_only: bool,
}

/// How the list is folded.
#[derive(Debug)]
pub struct FoldState {
    pub conversation_totals: Vec<((AccountId, String), usize)>,
    pub expanded_conversations: Vec<(AccountId, String)>,
    pub collapsed_sections: Vec<String>,
}

/// The mail view.
#[derive(Debug)]
pub struct MailboxState {
    pub messages: Vec<MessageHeader>,
    pub messages_loaded: bool,
    pub refresh_pending: bool,
    pub pagination: PaginationState,
    pub search: SearchState,
    pub viewer: ViewerState,
    pub sent: SentState,
    pub selection: SelectionState,
    pub filters: FilterState,
    pub folds: FoldState,
    /// Folder that the list shows; `None` is the inbox.
    pub selected_folder_id: Option<String>,
    /// Account that the list shows; `None` is all of them.
    pub unified_selected_account: Option<AccountId>,
    /// Folders of the current account.
    pub folders: Vec<MailFolder>,
    pub folders_by_account: AccountMap<Vec<MailFolder>>,
}

/// Tags of the accounts.
#[derive(Debug)]
pub struct TagsState {
    pub by_account: AccountMap<Vec<Tag>>,
    pub loading: Vec<AccountId>,
}

/// Address books of the accounts.
#[derive(Debug)]
pub struct ContactsState {
    pub by_account: AccountMap<Vec<Contact>>,
    pub loading_accounts: Vec<AccountId>,
}

/// Messages that are to be opened, answered or forwarded once they are there.
#[derive(Debug)]
pub struct PendingState {
    pub notification_open: Option<MessageRef>,
    pub reply_id: Option<String>,
    pub forward_id: Option<String>,
    pub kanban_open: Option<(AccountId, String)>,
    /// Invitations that were answered and whose answer is on its way.
    pub invitation_responses: Vec<MessageRef>,
}

/// Quick actions in progress.
#[derive(Debug)]
pub struct QuickActionState {
    pub seq: u64,
    pub pending: Vec<PendingQuickAction>,
    pub menu: Option<(MessageRef, String)>,
}

/// The calendar view.
#[derive(Debug)]
pub struct CalendarState {
    pub events: Vec<CalendarEvent>,
    pub selected: Option<String>,
    pub deleting: Vec<(AccountId, String)>,
    pub moving: Vec<(AccountId, String)>,
    pub ical_sync: Vec<(String, IcalSyncStatus)>,
}

/// How much the local copy of the mail takes.
#[derive(Debug, Clone, Copy, PartialEq, Eq, Structural)]
pub struct CacheStats {
    pub used_bytes: u64,
    pub limit_bytes: u64,
}

/// The application.
#[derive(Debug)]
pub struct AviaryApp {
    pub settings: Settings,
    pub accounts: Vec<Account>,
    pub current_account_id: Option<AccountId>,
    pub auth: AuthState,
    pub view: MainView,
    pub mailbox: MailboxState,
    pub tags: TagsState,
    pub offline_accounts: Vec<AccountId>,
    pub unavailable_accounts: AccountMap<(Provider, String)>,
    pub kanban: BoardState,
    pub quick_actions: QuickActionState,
    pub sender_history: SenderHistoryState,
    pub sender_history_expanded: bool,
    pub contacts: ContactsState,
    pub pending: PendingState,
    pub composes: Vec<ComposeHandle>,
    pub calendar: CalendarState,
    pub cache: CacheStats,
    pub session_dirty: bool,
    pub translation_shown: bool,
    /// Grows with every change that the message list shows.
    pub message_list_revision: u64,
    pub effects: Vec<Effect>,
}

impl MailboxState {
    /// A mail view without mail.
    pub open spec fn empty(self) -> bool {
        &&& self.messages.len() == 0
        &&& !self.messages_loaded && !self.refresh_pending
        &&& self.pagination == PaginationState {
            has_more: false,
            loading_more: false,
            last_request_len: None,
            unified_request_id: 0,
        }
        &&& self.search.results is None && self.search.query@.len() == 0 && self.search.history.len() == 0
        &&& !self.search.menu_open && self.search.menu_selection is None
        &&& self.search.sort == MailSearchSort::Relevance && self.search.scope == MailSearchScope::Everywhere
        &&& self.viewer.selected is None && self.viewer.selected_id is None && self.viewer.thread is None
        &&& self.viewer.thread_bodies.len() == 0 && self.viewer.open_tabs.len() == 0
        &&& self.viewer.active_tab is None
        &&& self.sent.messages.len() == 0 && self.sent.expanded.len() == 0
        &&& self.selection.messages.len() == 0 && self.selection.anchor is None
        &&& self.filters.tag_filters@ == Map::<Seq<char>, Vec<String>>::empty()
        &&& !self.filters.show_flagged_only && !self.filters.show_snoozed_only
        &&& self.folds.conversation_totals.len() == 0 && self.folds.expanded_conversations.len() == 0
        &&& self.folds.collapsed_sections.len() == 0
        &&& self.selected_folder_id is None && self.unified_selected_account is None
        &&& self.folders.len() == 0
        &&& self.folders_by_account@ == Map::<Seq<char>, Vec<MailFolder>>::empty()
    }

    /// A mail view without mail.
    pub fn new() -> (mailbox: Self)
        ensures
            mailbox.empty(),
            mailbox.filters.tag_filters.unique(),
            mailbox.folders_by_account.unique(),
    {
        MailboxState {
            messages: Vec::new(),
            messages_loaded: false,
            refresh_pending: false,
            pagination: PaginationState {
                has_more: false,
                loading_more: false,
                last_request_len: None,
                unified_request_id: 0,
            },
            search: SearchState {
                query: String::new(),
                history: Vec::new(),
                results: None,
                menu_open: false,
                menu_selection: None,
                sort: MailSearchSort::default(),
                scope: MailSearchScope::default(),
            },
            viewer: ViewerState {
                selected: None,
                selected_id: None,
                thread: None,
                thread_bodies: Vec::new(),
                open_tabs: Vec::new(),
                active_tab: None,
            },
            sent: SentState { messages: Vec::new(), expanded: Vec::new() },
            selection: SelectionState { messages: Vec::new(), anchor: None },
            filters: FilterState {
                tag_filters: AccountMap::new(),
                show_flagged_only: false,
                show_snoozed_only: false,
            },
            folds: FoldState {
                conversation_totals: Vec::new(),
                expanded_conversations: Vec::new(),
                collapsed_sections: Vec::new(),
            },
            selected_folder_id: None,
            unified_selected_account: None,
            folders: Vec::new(),
            folders_by_account: AccountMap::new(),
        }
    }
}

impl AviaryApp {
    /// The application before it heard of any account.
    pub fn new(settings: Settings) -> (app: Self)
        ensures
            app.settings == settings,
            app.accounts.len() == 0 && app.current_account_id is None && app.auth is Idle,
            app.view == MainView::Mail,
            app.mailbox.empty(),
            app.mailbox.filters.tag_filters.unique() && app.mailbox.folders_by_account.unique(),
            app.tags.by_account@ == Map::<Seq<char>, Vec<Tag>>::empty() && app.tags.by_account.unique(),
            app.tags.loading.len() == 0,
            app.offline_accounts.len() == 0,
            app.unavailable_accounts@ == Map::<Seq<char>, (Provider, String)>::empty(),
            call_ensures(BoardState::default, (), app.kanban),
            app.quick_actions.seq == 0 && app.quick_actions.pending.len() == 0 && app.quick_actions.menu is None,
            app.sender_history is Idle && !app.sender_history_expanded,
            app.contacts.by_account@ == Map::<Seq<char>, Vec<Contact>>::empty(),
            app.contacts.loading_accounts.len() == 0,
            app.pending.notification_open is None && app.pending.reply_id is None && app.pending.forward_id is None,
            app.pending.kanban_open is None && app.pending.invitation_responses.len() == 0,
            app.composes.len() == 0,
            app.calendar.events.len() == 0 && app.calendar.selected is None,
            app.calendar.deleting.len() == 0 && app.calendar.moving.len() == 0 && app.calendar.ical_sync.len() == 0,
            app.cache == (CacheStats { used_bytes: 0, limit_bytes: 0 }),
            !app.session_dirty && !app.translation_shown,
            app.message_list_revision == 0,
            app.effects.len() == 0,
    {
        AviaryApp {
            settings,
            accounts: Vec::new(),
            current_account_id: None,
            auth: AuthState::Idle,
            view: MainView::Mail,
            mailbox: MailboxState::new(),
            tags: TagsState { by_account: AccountMap::new(), loading: Vec::new() },
            offline_accounts: Vec::new(),
            unavailable_accounts: AccountMap::new(),
            kanban: BoardState::default(),
            quick_actions: QuickActionState { seq: 0, pending: Vec::new(), menu: None },
            sender_history: SenderHistoryState::Idle,
            sender_history_expanded: false,
            contacts: ContactsState { by_account: AccountMap::new(), loading_accounts: Vec::new() },
            pending: PendingState {
                notification_open: None,
                reply_id: None,
                forward_id: None,
                kanban_open: None,
                invitation_responses: Vec::new(),
            },
            composes: Vec::new(),
            calendar: CalendarState {
                events: Vec::new(),
                selected: None,
                deleting: Vec::new(),
                moving: Vec::new(),
                ical_sync: Vec::new(),
            },
            cache: CacheStats { used_bytes: 0, limit_bytes: 0 },
            session_dirty: false,
            translation_shown: false,
            message_list_revision: 0,
            effects: Vec::new(),
        }
    }
}

} // verus!
