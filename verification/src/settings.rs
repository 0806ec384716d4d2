//! Settings of the application and of each account.
use crate::account_map::AccountMap;
use crate::lists::{first_index, first_where, position_where, retain_where, sort_stable, stable_sort, take_list};
use crate::list_entries::holds_text;
use crate::model::{clone_list, AccountId};
use crate::text::{chars_of, lowercase, text_at_most, text_le, to_lowercase, trim, trimmed};
use crate::theme::{CustomThemePalette, ThemeColorRole, ThemeMode, ThemePreset};
use vstd::prelude::*;
use vstd::string::*;

verus! {

/// Which renderer the message viewer uses for the body: the original HTML, the
/// converted markdown, or the HTML source.
#[derive(Debug, Clone, Copy, PartialEq, Eq, Structural)]
pub enum BodyViewMode {
    Blitz,
    Markdown,
    Source,
}

impl DeepView for BodyViewMode {
    type V = BodyViewMode;

    open spec fn deep_view(&self) -> BodyViewMode {
        *self
    }
}

impl Default for BodyViewMode {
    fn default() -> (value: Self)
        ensures
            value == BodyViewMode::Blitz,
    {
        BodyViewMode::Blitz
    }
}
/// Last presentation used by the calendar view.
#[derive(Debug, Clone, Copy, PartialEq, Eq, Structural)]
pub enum CalendarLayout {
    List,
    Calendar,
}

impl DeepView for CalendarLayout {
    type V = CalendarLayout;

    open spec fn deep_view(&self) -> CalendarLayout {
        *self
    }
}

impl Default for CalendarLayout {
    fn default() -> (value: Self)
        ensures
            value == CalendarLayout::Calendar,
    {
        CalendarLayout::Calendar
    }
}
/// Language preference. `System` resolves to the locale of the machine.
#[derive(Debug, Clone, Copy, PartialEq, Eq, Structural)]
pub enum LanguageChoice {
    System,
    English,
    French,
}

impl DeepView for LanguageChoice {
    type V = LanguageChoice;

    open spec fn deep_view(&self) -> LanguageChoice {
        *self
    }
}

impl Default for LanguageChoice {
    fn default() -> (value: Self)
        ensures
            value == LanguageChoice::System,
    {
        LanguageChoice::System
    }
}
/// How search results are ordered: best match first, or newest first.
#[derive(Debug, Clone, Copy, PartialEq, Eq, Structural)]
pub enum MailSearchSort {
    Relevance,
    Date,
}

impl DeepView for MailSearchSort {
    type V = MailSearchSort;

    open spec fn deep_view(&self) -> MailSearchSort {
        *self
    }
}

impl Default for MailSearchSort {
    fn default() -> (value: Self)
        ensures
            value == MailSearchSort::Relevance,
    {
        MailSearchSort::Relevance
    }
}
/// How wide the mail search reaches: the selected folder, or every folder.
#[derive(Debug, Clone, Copy, PartialEq, Eq, Structural)]
pub enum MailSearchScope {
    Folder,
    Everywhere,
}

impl DeepView for MailSearchScope {
    type V = MailSearchScope;

    open spec fn deep_view(&self) -> MailSearchScope {
        *self
    }
}

impl Default for MailSearchScope {
    fn default() -> (value: Self)
        ensures
            value == MailSearchScope::Everywhere,
    {
        MailSearchScope::Everywhere
    }
}
/// Icon of a quick action.
#[derive(Debug, Clone, Copy, PartialEq, Eq, Structural)]
pub enum QuickActionIcon {
    Zap,
    Forward,
    Reply,
    Folder,
    Tag,
    Archive,
}

impl DeepView for QuickActionIcon {
    type V = QuickActionIcon;

    open spec fn deep_view(&self) -> QuickActionIcon {
        *self
    }
}

impl Default for QuickActionIcon {
    fn default() -> (value: Self)
        ensures
            value == QuickActionIcon::Zap,
    {
        QuickActionIcon::Zap
    }
}

impl QuickActionIcon {
    /// Name of the icon's asset.
    pub open spec fn spec_asset(self) -> Seq<char> {
        match self {
            QuickActionIcon::Zap => "zap"@,
            QuickActionIcon::Forward => "forward"@,
            QuickActionIcon::Reply => "reply"@,
            QuickActionIcon::Folder => "folder-open"@,
            QuickActionIcon::Tag => "tag"@,
            QuickActionIcon::Archive => "archive"@,
        }
    }

    /// Name of the icon's asset.
    pub fn asset(self) -> (name: &'static str)
        ensures
            name@ == self.spec_asset(),
    {
        match self {
            QuickActionIcon::Zap => "zap",
            QuickActionIcon::Forward => "forward",
            QuickActionIcon::Reply => "reply",
            QuickActionIcon::Folder => "folder-open",
            QuickActionIcon::Tag => "tag",
            QuickActionIcon::Archive => "archive",
        }
    }
}

/// Whether a letter is `lower` or its upper-case form.
pub open spec fn is_letter(c: char, lower: char, upper: char) -> bool {
    c == lower || c == upper
}

/// The language that a locale identifier begins with, without regard to case.
pub open spec fn locale_language(locale: Seq<char>) -> Option<LanguageChoice> {
    if locale.len() < 2 {
        None
    } else if is_letter(locale[0], 'f', 'F') && is_letter(locale[1], 'r', 'R') {
        Some(LanguageChoice::French)
    } else if is_letter(locale[0], 'e', 'E') && is_letter(locale[1], 'n', 'N') {
        Some(LanguageChoice::English)
    } else {
        None
    }
}

/// Whether a locale identifier names a language of the application.
pub open spec fn names_language() -> spec_fn(Seq<char>) -> bool {
    |locale: Seq<char>| locale_language(locale) is Some
}

/// The language of the machine: the first of the candidates that names one of
/// the application's languages, else English.
pub open spec fn detected_language(candidates: Seq<Seq<char>>) -> LanguageChoice {
    match first_where(candidates, names_language()) {
        Some(locale) => locale_language(locale)->0,
        None => LanguageChoice::English,
    }
}

/// Identifier of a language.
pub open spec fn lang_id(language: LanguageChoice) -> Seq<char> {
    match language {
        LanguageChoice::French => "fr"@,
        _ => "en"@,
    }
}

/// The language that a locale identifier begins with.
fn language_of_locale(locale: &str) -> (language: Option<LanguageChoice>)
    ensures
        language == locale_language(locale@),
{
    let chars = chars_of(locale);
    if chars.len() < 2 {
        return None;
    }
    let first = chars[0];
    let second = chars[1];
    if (first == 'f' || first == 'F') && (second == 'r' || second == 'R') {
        Some(LanguageChoice::French)
    } else if (first == 'e' || first == 'E') && (second == 'n' || second == 'N') {
        Some(LanguageChoice::English)
    } else {
        None
    }
}

/// The language that the candidates name.
pub fn language_of_candidates(candidates: &Vec<String>) -> (language: LanguageChoice)
    ensures
        language == detected_language(candidates.deep_view()),
{
    let found = position_where(
        candidates,
        |locale: &String| -> (named: bool)
            ensures
                named == names_language()(locale.deep_view())
            { language_of_locale(locale).is_some() },
        Ghost(names_language()),
    );
    match found {
        Some(i) => {
            assert(candidates.deep_view()[i as int] == candidates[i as int]@);
            match language_of_locale(&candidates[i]) {
                Some(language) => language,
                None => LanguageChoice::English,
            }
        },
        None => LanguageChoice::English,
    }
}

/// Calls `sys_locale::get_locale`. What it returns rests on the machine, so
/// nothing is stated of it.
#[verifier::external_body]
fn system_locale() -> (locale: Option<String>) {
    sys_locale::get_locale()
}

/// Whether candidates are what the machine gave when it was asked for its locale: that one
/// locale, or none.
pub closed spec fn is_machine_locale(candidates: Seq<Seq<char>>) -> bool {
    exists|given: Option<String>| #[trigger] call_ensures(system_locale, (), given) && candidates == given_locale(given)
}

/// The locale that was given, if one was, as a candidate.
pub open spec fn given_locale(given: Option<String>) -> Seq<Seq<char>> {
    match given {
        Some(locale) => seq![locale@],
        None => Seq::empty(),
    }
}

/// Candidates count as the locale of the machine only where the lookup gave that locale.
proof fn law_the_locale_is_looked_up(candidates: Seq<Seq<char>>)
    requires
        is_machine_locale(candidates),
    ensures
        exists|given: Option<String>| #[trigger] call_ensures(system_locale, (), given) && (given is Some ==> candidates
            == seq![given->0@]) && (given is None ==> candidates.len() == 0),
{
}

/// Asks for something.
fn ask<R, F: Fn() -> R>(lookup: F) -> (given: R)
    requires
        call_requires(lookup, ()),
    ensures
        call_ensures(lookup, (), given),
{
    lookup()
}

/// The language of the machine, as its locale or, failing that, its environment
/// tells. `environment` holds the values of the locale variables that are set, in
/// the order in which they count.
pub fn detect_system_language(environment: &Vec<String>) -> (language: LanguageChoice)
    ensures
        exists|locale: Seq<Seq<char>>|
            is_machine_locale(locale) && locale.len() <= 1 && language == detected_language(
                #[trigger] (locale + environment.deep_view()),
            ),
{
    let mut candidates: Vec<String> = Vec::new();
    let given = ask(system_locale);
    let ghost asked = given;
    if let Some(locale) = given {
        candidates.push(locale);
    }
    let ghost locale = candidates.deep_view();
    assert(locale =~= given_locale(asked));
    assert(call_ensures(system_locale, (), asked));
    assert(is_machine_locale(locale));
    let mut i: usize = 0;
    while i < environment.len()
        invariant
            i <= environment.len(),
            candidates.deep_view() == locale + environment.deep_view().take(i as int),
        decreases environment.len() - i,
    {
        let ghost before = candidates.deep_view();
        candidates.push(environment[i].clone());
        assert(candidates.deep_view() =~= before.push(environment[i as int]@));
        assert(environment.deep_view().take(i + 1) =~= environment.deep_view().take(i as int).push(
            environment[i as int]@,
        ));
        i += 1;
    }
    assert(environment.deep_view().take(environment.len() as int) =~= environment.deep_view());
    language_of_candidates(&candidates)
}

impl LanguageChoice {
    /// Identifier of the chosen language; see [`detect_system_language`] for
    /// `environment`.
    pub fn to_lang_id(self, environment: &Vec<String>) -> (id: &'static str)
        ensures
            self != LanguageChoice::System ==> id@ == lang_id(self),
            self == LanguageChoice::System ==> exists|locale: Seq<Seq<char>>|
                is_machine_locale(locale) && locale.len() <= 1 && id@ == lang_id(
                    detected_language(#[trigger] (locale + environment.deep_view())),
                ),
    {
        let language = match self {
            LanguageChoice::System => detect_system_language(environment),
            chosen => chosen,
        };
        match language {
            LanguageChoice::French => "fr",
            _ => "en",
        }
    }
}

/// A message put off until `until`, hidden from the list in the meantime.
#[derive(Debug, PartialEq, Eq)]
pub struct SnoozedMessage {
    pub id: String,
    pub until: i128,
}

/// Mathematical form of [`SnoozedMessage`].
#[verifier::ext_equal]
pub struct SnoozedMessageView {
    pub id: Seq<char>,
    pub until: i128,
}

impl DeepView for SnoozedMessage {
    type V = SnoozedMessageView;

    open spec fn deep_view(&self) -> SnoozedMessageView {
        SnoozedMessageView {
            id: self.id.deep_view(),
            until: self.until,
        }
    }
}

impl Clone for SnoozedMessage {
    fn clone(&self) -> (copy: Self)
        ensures
            copy.deep_view() == self.deep_view(),
    {
        SnoozedMessage {
            id: self.id.clone(),
            until: self.until,
        }
    }
}
/// An image embedded in a body.
#[derive(Debug, PartialEq, Eq)]
pub struct InlineImage {
    pub cid: String,
    pub bytes: Vec<u8>,
}

/// Mathematical form of [`InlineImage`].
#[verifier::ext_equal]
pub struct InlineImageView {
    pub cid: Seq<char>,
    pub bytes: Seq<u8>,
}

impl DeepView for InlineImage {
    type V = InlineImageView;

    open spec fn deep_view(&self) -> InlineImageView {
        InlineImageView {
            cid: self.cid.deep_view(),
            bytes: self.bytes.deep_view(),
        }
    }
}

impl Clone for InlineImage {
    fn clone(&self) -> (copy: Self)
        ensures
            copy.deep_view() == self.deep_view(),
    {
        InlineImage {
            cid: self.cid.clone(),
            bytes: crate::model::clone_list(&self.bytes),
        }
    }
}
/// What a block of rich text is: a paragraph, or something else.
#[derive(Debug, PartialEq, Eq)]
pub enum BlockKind {
    Paragraph { text: String },
    Other { source: String },
}

/// Mathematical form of [`BlockKind`].
#[verifier::ext_equal]
pub enum BlockKindView {
    Paragraph { text: Seq<char> },
    Other { source: Seq<char> },
}

impl DeepView for BlockKind {
    type V = BlockKindView;

    open spec fn deep_view(&self) -> BlockKindView {
        match self {
            BlockKind::Paragraph { text } => BlockKindView::Paragraph { text: text.deep_view() },
            BlockKind::Other { source } => BlockKindView::Other { source: source.deep_view() },
        }
    }
}

impl Clone for BlockKind {
    fn clone(&self) -> (copy: Self)
        ensures
            copy.deep_view() == self.deep_view(),
    {
        match self {
            BlockKind::Paragraph { text } => BlockKind::Paragraph { text: text.clone() },
            BlockKind::Other { source } => BlockKind::Other { source: source.clone() },
        }
    }
}
/// A block of rich text.
#[derive(Debug, PartialEq, Eq)]
pub struct Block {
    pub id: u64,
    pub kind: BlockKind,
}

/// Mathematical form of [`Block`].
#[verifier::ext_equal]
pub struct BlockView {
    pub id: u64,
    pub kind: BlockKindView,
}

impl DeepView for Block {
    type V = BlockView;

    open spec fn deep_view(&self) -> BlockView {
        BlockView {
            id: self.id,
            kind: self.kind.deep_view(),
        }
    }
}

impl Clone for Block {
    fn clone(&self) -> (copy: Self)
        ensures
            copy.deep_view() == self.deep_view(),
    {
        Block {
            id: self.id,
            kind: self.kind.clone(),
        }
    }
}
/// A signature of an account.
#[derive(Debug, PartialEq, Eq)]
pub struct Signature {
    pub name: String,
    pub is_default: bool,
    pub blocks: Vec<Block>,
    pub images: Vec<InlineImage>,
}

/// Mathematical form of [`Signature`].
#[verifier::ext_equal]
pub struct SignatureView {
    pub name: Seq<char>,
    pub is_default: bool,
    pub blocks: Seq<BlockView>,
    pub images: Seq<InlineImageView>,
}

impl DeepView for Signature {
    type V = SignatureView;

    open spec fn deep_view(&self) -> SignatureView {
        SignatureView {
            name: self.name.deep_view(),
            is_default: self.is_default,
            blocks: self.blocks.deep_view(),
            images: self.images.deep_view(),
        }
    }
}

impl Clone for Signature {
    fn clone(&self) -> (copy: Self)
        ensures
            copy.deep_view() == self.deep_view(),
    {
        Signature {
            name: self.name.clone(),
            is_default: self.is_default,
            blocks: crate::model::clone_list(&self.blocks),
            images: crate::model::clone_list(&self.images),
        }
    }
}
/// Forwards the message; the note comes before the signature and the quoted message.
#[derive(Debug, PartialEq, Eq)]
pub struct QuickForward {
    pub to: String,
    pub cc: String,
    pub bcc: String,
    pub note_blocks: Vec<Block>,
    pub note_images: Vec<InlineImage>,
}

/// Mathematical form of [`QuickForward`].
#[verifier::ext_equal]
pub struct QuickForwardView {
    pub to: Seq<char>,
    pub cc: Seq<char>,
    pub bcc: Seq<char>,
    pub note_blocks: Seq<BlockView>,
    pub note_images: Seq<InlineImageView>,
}

impl DeepView for QuickForward {
    type V = QuickForwardView;

    open spec fn deep_view(&self) -> QuickForwardView {
        QuickForwardView {
            to: self.to.deep_view(),
            cc: self.cc.deep_view(),
            bcc: self.bcc.deep_view(),
            note_blocks: self.note_blocks.deep_view(),
            note_images: self.note_images.deep_view(),
        }
    }
}

impl Clone for QuickForward {
    fn clone(&self) -> (copy: Self)
        ensures
            copy.deep_view() == self.deep_view(),
    {
        QuickForward {
            to: self.to.clone(),
            cc: self.cc.clone(),
            bcc: self.bcc.clone(),
            note_blocks: crate::model::clone_list(&self.note_blocks),
            note_images: crate::model::clone_list(&self.note_images),
        }
    }
}
/// Answers the message; the body comes before the signature and the quoted message.
#[derive(Debug, PartialEq, Eq)]
pub struct QuickReply {
    pub reply_all: bool,
    pub body_blocks: Vec<Block>,
    pub body_images: Vec<InlineImage>,
}

/// Mathematical form of [`QuickReply`].
#[verifier::ext_equal]
pub struct QuickReplyView {
    pub reply_all: bool,
    pub body_blocks: Seq<BlockView>,
    pub body_images: Seq<InlineImageView>,
}

impl DeepView for QuickReply {
    type V = QuickReplyView;

    open spec fn deep_view(&self) -> QuickReplyView {
        QuickReplyView {
            reply_all: self.reply_all,
            body_blocks: self.body_blocks.deep_view(),
            body_images: self.body_images.deep_view(),
        }
    }
}

impl Clone for QuickReply {
    fn clone(&self) -> (copy: Self)
        ensures
            copy.deep_view() == self.deep_view(),
    {
        QuickReply {
            reply_all: self.reply_all,
            body_blocks: crate::model::clone_list(&self.body_blocks),
            body_images: crate::model::clone_list(&self.body_images),
        }
    }
}
/// Account-local one-click mail recipe. Folders and tags are named by the ids of
/// their provider, so that a rename does not make the recipe ambiguous.
#[derive(Debug, PartialEq, Eq)]
pub struct QuickAction {
    pub id: i64,
    pub name: String,
    pub icon: QuickActionIcon,
    /// Packed sRGB (`0xRRGGBB`).
    pub color: u32,
    pub favorite: bool,
    pub forward: Option<QuickForward>,
    pub reply: Option<QuickReply>,
    pub add_tags: Vec<String>,
    pub remove_tags: Vec<String>,
    pub mark_read: Option<bool>,
    pub set_flagged: Option<bool>,
    pub move_to_folder_id: Option<String>,
}

/// Mathematical form of [`QuickAction`].
#[verifier::ext_equal]
pub struct QuickActionView {
    pub id: i64,
    pub name: Seq<char>,
    pub icon: QuickActionIcon,
    pub color: u32,
    pub favorite: bool,
    pub forward: Option<QuickForwardView>,
    pub reply: Option<QuickReplyView>,
    pub add_tags: Seq<Seq<char>>,
    pub remove_tags: Seq<Seq<char>>,
    pub mark_read: Option<bool>,
    pub set_flagged: Option<bool>,
    pub move_to_folder_id: Option<Seq<char>>,
}

impl DeepView for QuickAction {
    type V = QuickActionView;

    open spec fn deep_view(&self) -> QuickActionView {
        QuickActionView {
            id: self.id,
            name: self.name.deep_view(),
            icon: self.icon,
            color: self.color,
            favorite: self.favorite,
            forward: self.forward.deep_view(),
            reply: self.reply.deep_view(),
            add_tags: self.add_tags.deep_view(),
            remove_tags: self.remove_tags.deep_view(),
            mark_read: self.mark_read,
            set_flagged: self.set_flagged,
            move_to_folder_id: self.move_to_folder_id.deep_view(),
        }
    }
}

impl Clone for QuickAction {
    fn clone(&self) -> (copy: Self)
        ensures
            copy.deep_view() == self.deep_view(),
    {
        QuickAction {
            id: self.id,
            name: self.name.clone(),
            icon: self.icon,
            color: self.color,
            favorite: self.favorite,
            forward: self.forward.clone(),
            reply: self.reply.clone(),
            add_tags: crate::model::clone_list(&self.add_tags),
            remove_tags: crate::model::clone_list(&self.remove_tags),
            mark_read: self.mark_read,
            set_flagged: self.set_flagged,
            move_to_folder_id: self.move_to_folder_id.clone(),
        }
    }
}
/// Settings of one account.
#[derive(Debug, PartialEq, Eq)]
pub struct AccountSettings {
    pub fetch_limit: usize,
    pub sender_history_limit: usize,
    pub auto_refresh_secs: u32,
    /// Messages kept at the top of the list.
    pub pinned_message_ids: Vec<String>,
    /// Messages hidden from the list until their deadline, newest entry last.
    pub snoozed_messages: Vec<SnoozedMessage>,
    /// Folders surfaced in the favorites section.
    pub pinned_folder_ids: Vec<String>,
    /// Folders explicitly expanded in the tree.
    pub expanded_folder_ids: Vec<String>,
    /// Tags shown as columns in the kanban view, in display order.
    pub kanban_tag_columns: Vec<String>,
    pub signatures: Vec<Signature>,
    pub quick_actions: Vec<QuickAction>,
    pub signature_seq: i64,
    pub template_seq: i64,
    pub quick_action_seq: i64,
    /// Display name chosen by the user; empty for the one of the provider.
    pub display_name_override: String,
    /// Packed sRGB (`0xRRGGBB`).
    pub color_override: Option<u32>,
}

/// Mathematical form of [`AccountSettings`].
#[verifier::ext_equal]
pub struct AccountSettingsView {
    pub fetch_limit: usize,
    pub sender_history_limit: usize,
    pub auto_refresh_secs: u32,
    pub pinned_message_ids: Seq<Seq<char>>,
    pub snoozed_messages: Seq<SnoozedMessageView>,
    pub pinned_folder_ids: Seq<Seq<char>>,
    pub expanded_folder_ids: Seq<Seq<char>>,
    pub kanban_tag_columns: Seq<Seq<char>>,
    pub signatures: Seq<SignatureView>,
    pub quick_actions: Seq<QuickActionView>,
    pub signature_seq: i64,
    pub template_seq: i64,
    pub quick_action_seq: i64,
    pub display_name_override: Seq<char>,
    pub color_override: Option<u32>,
}

impl DeepView for AccountSettings {
    type V = AccountSettingsView;

    open spec fn deep_view(&self) -> AccountSettingsView {
        AccountSettingsView {
            fetch_limit: self.fetch_limit,
            sender_history_limit: self.sender_history_limit,
            auto_refresh_secs: self.auto_refresh_secs,
            pinned_message_ids: self.pinned_message_ids.deep_view(),
            snoozed_messages: self.snoozed_messages.deep_view(),
            pinned_folder_ids: self.pinned_folder_ids.deep_view(),
            expanded_folder_ids: self.expanded_folder_ids.deep_view(),
            kanban_tag_columns: self.kanban_tag_columns.deep_view(),
            signatures: self.signatures.deep_view(),
            quick_actions: self.quick_actions.deep_view(),
            signature_seq: self.signature_seq,
            template_seq: self.template_seq,
            quick_action_seq: self.quick_action_seq,
            display_name_override: self.display_name_override.deep_view(),
            color_override: self.color_override,
        }
    }
}

impl Clone for AccountSettings {
    fn clone(&self) -> (copy: Self)
        ensures
            copy.deep_view() == self.deep_view(),
    {
        AccountSettings {
            fetch_limit: self.fetch_limit,
            sender_history_limit: self.sender_history_limit,
            auto_refresh_secs: self.auto_refresh_secs,
            pinned_message_ids: crate::model::clone_list(&self.pinned_message_ids),
            snoozed_messages: crate::model::clone_list(&self.snoozed_messages),
            pinned_folder_ids: crate::model::clone_list(&self.pinned_folder_ids),
            expanded_folder_ids: crate::model::clone_list(&self.expanded_folder_ids),
            kanban_tag_columns: crate::model::clone_list(&self.kanban_tag_columns),
            signatures: crate::model::clone_list(&self.signatures),
            quick_actions: crate::model::clone_list(&self.quick_actions),
            signature_seq: self.signature_seq,
            template_seq: self.template_seq,
            quick_action_seq: self.quick_action_seq,
            display_name_override: self.display_name_override.clone(),
            color_override: self.color_override,
        }
    }
}

impl Default for QuickForward {
    fn default() -> (forward: Self)
        ensures
            forward.deep_view() == (QuickForwardView {
                to: Seq::empty(),
                cc: Seq::empty(),
                bcc: Seq::empty(),
                note_blocks: Seq::empty(),
                note_images: Seq::empty(),
            }),
    {
        QuickForward {
            to: String::new(),
            cc: String::new(),
            bcc: String::new(),
            note_blocks: Vec::new(),
            note_images: Vec::new(),
        }
    }
}

impl Default for QuickReply {
    fn default() -> (reply: Self)
        ensures
            reply.deep_view() == (QuickReplyView {
                reply_all: false,
                body_blocks: Seq::empty(),
                body_images: Seq::empty(),
            }),
    {
        QuickReply { reply_all: false, body_blocks: Vec::new(), body_images: Vec::new() }
    }
}

impl Default for QuickAction {
    fn default() -> (action: Self)
        ensures
            action.deep_view() == (QuickActionView {
                id: 0,
                name: Seq::empty(),
                icon: QuickActionIcon::Zap,
                color: 0xE5A50A,
                favorite: false,
                forward: None,
                reply: None,
                add_tags: Seq::empty(),
                remove_tags: Seq::empty(),
                mark_read: None,
                set_flagged: None,
                move_to_folder_id: None,
            }),
    {
        QuickAction {
            id: 0,
            name: String::new(),
            icon: QuickActionIcon::Zap,
            color: 0xE5A50A,
            favorite: false,
            forward: None,
            reply: None,
            add_tags: Vec::new(),
            remove_tags: Vec::new(),
            mark_read: None,
            set_flagged: None,
            move_to_folder_id: None,
        }
    }
}

impl QuickActionView {
    /// Whether the action does anything.
    pub open spec fn has_steps(self) -> bool {
        self.forward is Some || self.reply is Some || self.add_tags.len() > 0 || self.remove_tags.len() > 0
            || self.mark_read is Some || self.set_flagged is Some || self.move_to_folder_id is Some
    }

    /// Whether no tag is both added and removed.
    pub open spec fn targets_are_disjoint(self) -> bool {
        forall|i: int, j: int|
            #![trigger self.add_tags[i], self.remove_tags[j]]
            0 <= i < self.add_tags.len() && 0 <= j < self.remove_tags.len() ==> self.add_tags[i]
                != self.remove_tags[j]
    }

    /// Whether the action sends at most one message.
    pub open spec fn sends_at_most_once(self) -> bool {
        self.forward is None || self.reply is None
    }
}

impl QuickAction {
    pub fn has_steps(&self) -> (any: bool)
        ensures
            any == self.deep_view().has_steps(),
    {
        self.forward.is_some() || self.reply.is_some() || self.add_tags.len() > 0 || self.remove_tags.len() > 0
            || self.mark_read.is_some() || self.set_flagged.is_some() || self.move_to_folder_id.is_some()
    }

    pub fn targets_are_disjoint(&self) -> (disjoint: bool)
        ensures
            disjoint == self.deep_view().targets_are_disjoint(),
    {
        let ghost added = self.deep_view().add_tags;
        let ghost removed = self.deep_view().remove_tags;
        let mut i: usize = 0;
        while i < self.add_tags.len()
            invariant
                i <= self.add_tags.len(),
                added == self.add_tags.deep_view(),
                removed == self.remove_tags.deep_view(),
                forall|a: int, b: int|
                    #![trigger added[a], removed[b]]
                    0 <= a < i && 0 <= b < removed.len() ==> added[a] != removed[b],
            decreases self.add_tags.len() - i,
        {
            assert(added[i as int] == self.add_tags[i as int]@);
            if holds_text(&self.remove_tags, &self.add_tags[i]) {
                proof {
                    let b = choose|b: int| 0 <= b < removed.len() && removed[b] == added[i as int];
                    assert(self.deep_view().add_tags[i as int] == self.deep_view().remove_tags[b]);
                }
                return false;
            }
            assert forall|b: int| 0 <= b < removed.len() implies added[i as int] != #[trigger] removed[b] by {
                if added[i as int] == removed[b] {
                    assert(removed.contains(added[i as int]));
                }
            }
            i += 1;
        }
        true
    }

    pub fn sends_at_most_once(&self) -> (once: bool)
        ensures
            once == self.deep_view().sends_at_most_once(),
    {
        self.forward.is_none() || self.reply.is_none()
    }
}

/// Settings that an account starts with.
pub open spec fn default_account_settings() -> AccountSettingsView {
    AccountSettingsView {
        fetch_limit: 20,
        sender_history_limit: 5,
        auto_refresh_secs: 60,
        pinned_message_ids: Seq::empty(),
        snoozed_messages: Seq::empty(),
        pinned_folder_ids: Seq::empty(),
        expanded_folder_ids: Seq::empty(),
        kanban_tag_columns: Seq::empty(),
        signatures: Seq::empty(),
        quick_actions: Seq::empty(),
        signature_seq: 0,
        template_seq: 0,
        quick_action_seq: 0,
        display_name_override: Seq::empty(),
        color_override: None,
    }
}

impl Default for AccountSettings {
    fn default() -> (settings: Self)
        ensures
            settings.deep_view() == default_account_settings(),
    {
        AccountSettings {
            fetch_limit: 20,
            sender_history_limit: 5,
            auto_refresh_secs: 60,
            pinned_message_ids: Vec::new(),
            snoozed_messages: Vec::new(),
            pinned_folder_ids: Vec::new(),
            expanded_folder_ids: Vec::new(),
            kanban_tag_columns: Vec::new(),
            signatures: Vec::new(),
            quick_actions: Vec::new(),
            signature_seq: 0,
            template_seq: 0,
            quick_action_seq: 0,
            display_name_override: String::new(),
            color_override: None,
        }
    }
}

/// A custom theme: the preset it started from and its colors.
#[derive(Debug, Clone, Copy, PartialEq, Eq, Structural)]
pub struct CustomThemeVariant {
    pub preset: ThemePreset,
    pub palette: CustomThemePalette,
}

impl CustomThemeVariant {
    /// A preset as it comes.
    pub open spec fn spec_from_preset(preset: ThemePreset) -> CustomThemeVariant {
        CustomThemeVariant { preset, palette: preset.spec_palette() }
    }

    /// A preset as it comes.
    pub fn from_preset(preset: ThemePreset) -> (variant: Self)
        ensures
            variant == Self::spec_from_preset(preset),
    {
        CustomThemeVariant { preset, palette: preset.palette() }
    }
}

/// The theme in use and what each mode keeps as its custom theme.
#[derive(Debug, Clone, Copy, PartialEq, Eq, Structural)]
pub struct ThemeState {
    pub theme_mode: ThemeMode,
    pub custom_theme_enabled: bool,
    pub theme_preset: ThemePreset,
    pub custom_theme_palette: CustomThemePalette,
    pub custom_theme_dark_variant: Option<CustomThemeVariant>,
    pub custom_theme_light_variant: Option<CustomThemeVariant>,
}

impl ThemeState {
    /// What a mode keeps as its custom theme.
    pub open spec fn spec_variant(self, mode: ThemeMode) -> Option<CustomThemeVariant> {
        match mode {
            ThemeMode::Dark => self.custom_theme_dark_variant,
            ThemeMode::Light => self.custom_theme_light_variant,
        }
    }

    /// The settings with the custom theme of a mode replaced.
    pub open spec fn with_variant(self, mode: ThemeMode, variant: CustomThemeVariant) -> ThemeState {
        match mode {
            ThemeMode::Dark => ThemeState { custom_theme_dark_variant: Some(variant), ..self },
            ThemeMode::Light => ThemeState { custom_theme_light_variant: Some(variant), ..self },
        }
    }

    /// The theme in use as a custom theme.
    pub open spec fn current_variant(self) -> CustomThemeVariant {
        CustomThemeVariant { preset: self.theme_preset, palette: self.custom_theme_palette }
    }

    /// The settings once the theme in use was kept for its mode.
    pub open spec fn remembered(self) -> ThemeState {
        self.with_variant(self.theme_mode, self.current_variant())
    }

    /// The settings once a custom theme was put to use in a mode.
    pub open spec fn activated(self, mode: ThemeMode, variant: CustomThemeVariant) -> ThemeState {
        ThemeState {
            custom_theme_enabled: true,
            theme_mode: mode,
            theme_preset: variant.preset,
            custom_theme_palette: variant.palette,
            ..self
        }.with_variant(mode, variant)
    }

    /// The custom theme of a mode: what was kept for it, else the counterpart of
    /// the preset in use, else the preset that the mode starts from.
    pub open spec fn variant_or_paired(self, mode: ThemeMode) -> CustomThemeVariant {
        match self.spec_variant(mode) {
            Some(variant) => variant,
            None => {
                let paired = self.theme_preset.spec_with_mode(mode);
                CustomThemeVariant::spec_from_preset(
                    if paired == ThemePreset::Manual { ThemePreset::spec_default_for_mode(mode) } else { paired },
                )
            },
        }
    }

    /// The settings before a mode is selected: an active custom theme is kept.
    pub open spec fn kept(self) -> ThemeState {
        if self.custom_theme_enabled {
            self.remembered()
        } else {
            self
        }
    }

    /// The settings once the custom theme of a mode was selected.
    pub open spec fn custom_mode_selected(self, mode: ThemeMode) -> ThemeState {
        self.kept().activated(mode, self.kept().variant_or_paired(mode))
    }

    /// The settings once the built-in theme of a mode was selected.
    pub open spec fn builtin_mode_selected(self, mode: ThemeMode) -> ThemeState {
        ThemeState { theme_mode: mode, custom_theme_enabled: false, ..self.kept() }
    }

    /// The settings before a color is edited: while the preset in use is known, its
    /// counterpart is kept for the other mode unless something is.
    pub open spec fn seeded(self) -> ThemeState {
        let other = self.theme_mode.spec_other();
        if self.theme_preset != ThemePreset::Manual && self.spec_variant(other) is None {
            self.with_variant(
                other,
                CustomThemeVariant::spec_from_preset(self.theme_preset.spec_with_mode(other)),
            )
        } else {
            self
        }
    }

    /// The settings once a color was edited.
    pub open spec fn color_edited(self, role: ThemeColorRole, color: u32) -> ThemeState {
        ThemeState {
            custom_theme_palette: self.custom_theme_palette.recolored(role, color),
            custom_theme_enabled: true,
            theme_preset: ThemePreset::Manual,
            ..self.seeded()
        }.remembered()
    }

    fn custom_theme_variant(&self, mode: ThemeMode) -> (variant: Option<CustomThemeVariant>)
        ensures
            variant == self.spec_variant(mode),
    {
        match mode {
            ThemeMode::Dark => self.custom_theme_dark_variant,
            ThemeMode::Light => self.custom_theme_light_variant,
        }
    }

    fn set_custom_theme_variant(&mut self, mode: ThemeMode, variant: CustomThemeVariant)
        ensures
            *final(self) == old(self).with_variant(mode, variant),
    {
        match mode {
            ThemeMode::Dark => self.custom_theme_dark_variant = Some(variant),
            ThemeMode::Light => self.custom_theme_light_variant = Some(variant),
        }
    }

    fn remember_current_custom_theme(&mut self)
        ensures
            *final(self) == old(self).remembered(),
    {
        self.set_custom_theme_variant(
            self.theme_mode,
            CustomThemeVariant { preset: self.theme_preset, palette: self.custom_theme_palette },
        );
    }

    fn activate_custom_theme_variant(&mut self, mode: ThemeMode, variant: CustomThemeVariant)
        ensures
            *final(self) == old(self).activated(mode, variant),
    {
        self.custom_theme_enabled = true;
        self.theme_mode = mode;
        self.theme_preset = variant.preset;
        self.custom_theme_palette = variant.palette;
        self.set_custom_theme_variant(mode, variant);
    }

    /// Puts a preset to use.
    pub fn select_custom_theme_preset(&mut self, preset: ThemePreset)
        ensures
            *final(self) == old(self).activated(
                preset.spec_mode(),
                CustomThemeVariant::spec_from_preset(preset),
            ),
    {
        self.activate_custom_theme_variant(preset.mode(), CustomThemeVariant::from_preset(preset));
    }

    /// Changes a color of the custom theme.
    pub fn edit_custom_theme_color(&mut self, role: ThemeColorRole, color: u32)
        ensures
            *final(self) == old(self).color_edited(role, color),
    {
        if self.theme_preset != ThemePreset::Manual {
            let other = self.theme_mode.other();
            if self.custom_theme_variant(other).is_none() {
                let paired = self.theme_preset.with_mode(other);
                self.set_custom_theme_variant(other, CustomThemeVariant::from_preset(paired));
            }
        }
        self.custom_theme_palette.set_color(role, color);
        self.custom_theme_enabled = true;
        self.theme_preset = ThemePreset::Manual;
        self.remember_current_custom_theme();
    }

    /// Puts the custom theme of a mode to use.
    pub fn select_custom_theme_mode(&mut self, mode: ThemeMode)
        ensures
            *final(self) == old(self).custom_mode_selected(mode),
    {
        if self.custom_theme_enabled {
            self.remember_current_custom_theme();
        }
        let variant = match self.custom_theme_variant(mode) {
            Some(variant) => variant,
            None => {
                let paired = self.theme_preset.with_mode(mode);
                let preset = if paired == ThemePreset::Manual {
                    ThemePreset::default_for_mode(mode)
                } else {
                    paired
                };
                CustomThemeVariant::from_preset(preset)
            },
        };
        self.activate_custom_theme_variant(mode, variant);
    }

    /// Puts the built-in theme of a mode to use.
    pub fn select_builtin_theme_mode(&mut self, mode: ThemeMode)
        ensures
            *final(self) == old(self).builtin_mode_selected(mode),
    {
        if self.custom_theme_enabled {
            self.remember_current_custom_theme();
        }
        self.theme_mode = mode;
        self.custom_theme_enabled = false;
    }
}

/// Settings of the application. Scales, font sizes and widths are fractions and
/// live with the program that draws.
#[derive(Debug, PartialEq, Eq)]
pub struct GlobalSettings {
    pub theme_mode: ThemeMode,
    /// Whether the custom palette is in use.
    pub custom_theme_enabled: bool,
    pub theme_preset: ThemePreset,
    pub custom_theme_palette: CustomThemePalette,
    /// Custom theme of the dark mode. Each mode keeps its own, so that changing the
    /// mode never loses an edit.
    pub custom_theme_dark_variant: Option<CustomThemeVariant>,
    /// Custom theme of the light mode.
    pub custom_theme_light_variant: Option<CustomThemeVariant>,
    pub vim_keybindings: bool,
    pub show_remote_images: bool,
    pub force_uniform_font_family: bool,
    pub force_uniform_font_size: bool,
    pub reply_all_primary: bool,
    pub force_light_email_preview: bool,
    /// Opens the main window maximized.
    pub start_maximized: bool,
    pub collapse_quoted_messages: bool,
    /// Folds the message list into one row per conversation; search results stay flat.
    pub group_by_conversation: bool,
    pub notifications_enabled: bool,
    pub tray_enabled: bool,
    /// Enables an undo window before common mutations.
    pub action_delay_enabled: bool,
    pub action_delay_secs: u32,
    pub send_delay_secs: u32,
    pub compose_show_cc: bool,
    pub compose_show_bcc: bool,
    pub azure_client_id: String,
    pub azure_tenant: String,
    pub google_client_id: String,
    pub google_client_secret: String,
    pub last_account_id: Option<String>,
    pub default_account_id: Option<String>,
    /// Accounts unchecked in the unified navigation.
    pub unified_hidden_account_ids: Vec<String>,
    pub calendar_hidden_account_ids: Vec<String>,
    /// Last id given to a calendar subscription.
    pub ical_subscription_seq: u64,
    pub calendar_layout: CalendarLayout,
    pub calendar_upcoming_days: u32,
    pub calendar_grid_weeks: u32,
    pub calendar_infinite_scroll: bool,
    pub expanded_folder_account_ids: Vec<String>,
    pub favorite_folders_collapsed: bool,
    /// Display order of the accounts.
    pub account_order: Vec<String>,
    pub language: LanguageChoice,
    pub body_view_mode: BodyViewMode,
    pub mail_cache_limit_mb: u64,
    /// Senders whose mail is moved to the junk folder on arrival, as bare lowercase
    /// addresses in order.
    pub blocked_senders: Vec<String>,
}

impl Default for GlobalSettings {
    fn default() -> (settings: Self)
        ensures
            settings.theme_mode == ThemeMode::Dark,
            !settings.custom_theme_enabled,
            settings.theme_preset == ThemePreset::OneDark,
            settings.custom_theme_palette == ThemePreset::OneDark.spec_palette(),
            settings.custom_theme_dark_variant is None,
            settings.custom_theme_light_variant is None,
            !settings.vim_keybindings,
            !settings.show_remote_images,
            !settings.force_uniform_font_family,
            !settings.force_uniform_font_size,
            !settings.reply_all_primary,
            !settings.force_light_email_preview,
            !settings.start_maximized,
            settings.collapse_quoted_messages,
            settings.group_by_conversation,
            settings.notifications_enabled,
            settings.tray_enabled,
            !settings.action_delay_enabled,
            settings.action_delay_secs == 5,
            settings.send_delay_secs == 10,
            !settings.compose_show_cc,
            !settings.compose_show_bcc,
            settings.azure_client_id@ == Seq::<char>::empty(),
            settings.azure_tenant@ == "common"@,
            settings.google_client_id@ == Seq::<char>::empty(),
            settings.google_client_secret@ == Seq::<char>::empty(),
            settings.last_account_id is None,
            settings.default_account_id is None,
            settings.unified_hidden_account_ids@ == Seq::<String>::empty(),
            settings.calendar_hidden_account_ids@ == Seq::<String>::empty(),
            settings.ical_subscription_seq == 0,
            settings.calendar_layout == CalendarLayout::Calendar,
            settings.calendar_upcoming_days == 30,
            settings.calendar_grid_weeks == 5,
            settings.calendar_infinite_scroll,
            settings.expanded_folder_account_ids@ == Seq::<String>::empty(),
            !settings.favorite_folders_collapsed,
            settings.account_order@ == Seq::<String>::empty(),
            settings.language == LanguageChoice::System,
            settings.body_view_mode == BodyViewMode::Blitz,
            settings.mail_cache_limit_mb == 500,
            settings.blocked_senders@ == Seq::<String>::empty(),
    {
        GlobalSettings {
            theme_mode: ThemeMode::Dark,
            custom_theme_enabled: false,
            theme_preset: ThemePreset::OneDark,
            custom_theme_palette: ThemePreset::OneDark.palette(),
            custom_theme_dark_variant: None,
            custom_theme_light_variant: None,
            vim_keybindings: false,
            show_remote_images: false,
            force_uniform_font_family: false,
            force_uniform_font_size: false,
            reply_all_primary: false,
            force_light_email_preview: false,
            start_maximized: false,
            collapse_quoted_messages: true,
            group_by_conversation: true,
            notifications_enabled: true,
            tray_enabled: true,
            action_delay_enabled: false,
            action_delay_secs: 5,
            send_delay_secs: 10,
            compose_show_cc: false,
            compose_show_bcc: false,
            azure_client_id: String::new(),
            azure_tenant: "common".to_owned(),
            google_client_id: String::new(),
            google_client_secret: String::new(),
            last_account_id: None,
            default_account_id: None,
            unified_hidden_account_ids: Vec::new(),
            calendar_hidden_account_ids: Vec::new(),
            ical_subscription_seq: 0,
            calendar_layout: CalendarLayout::Calendar,
            calendar_upcoming_days: 30,
            calendar_grid_weeks: 5,
            calendar_infinite_scroll: true,
            expanded_folder_account_ids: Vec::new(),
            favorite_folders_collapsed: false,
            account_order: Vec::new(),
            language: LanguageChoice::System,
            body_view_mode: BodyViewMode::Blitz,
            mail_cache_limit_mb: 500,
            blocked_senders: Vec::new(),
        }
    }
}

/// Place of the last `<` of a text.
pub open spec fn last_bracket(text: Seq<char>) -> Option<int>
    decreases text.len(),
{
    if text.len() == 0 {
        None
    } else if text.last() == '<' {
        Some(text.len() - 1)
    } else {
        last_bracket(text.drop_last())
    }
}

/// Whether a character closes an address.
pub open spec fn closes() -> spec_fn(char) -> bool {
    |c: char| c == '>'
}

/// The address of a `From` header: what stands between angle brackets, or the
/// whole of it, if that holds an `@`.
pub open spec fn email_of(from: Seq<char>) -> Option<Seq<char>> {
    let candidate = match last_bracket(from) {
        None => trimmed(from),
        Some(open) => match first_index(from.skip(open + 1), closes()) {
            None => trimmed(from),
            Some(len) => trimmed(from.subrange(open + 1, open + 1 + len)),
        },
    };
    if candidate.contains('@') {
        Some(candidate)
    } else {
        None
    }
}

/// The address of a `From` header.
pub fn extract_email(from: &str) -> (address: Option<String>)
    ensures
        address.deep_view() == email_of(from@),
{
    let chars = chars_of(from);
    let mut open: usize = chars.len();
    assert(from@.take(from@.len() as int) =~= from@);
    while open > 0 && chars[open - 1] != '<'
        invariant
            open <= chars.len(),
            chars@ == from@,
            last_bracket(from@) == last_bracket(from@.take(open as int)),
        decreases open,
    {
        assert(from@.take(open as int).drop_last() =~= from@.take(open - 1));
        open -= 1;
    }
    let candidate: String = if open == 0 {
        assert(from@.take(0) =~= Seq::<char>::empty());
        trim(from)
    } else {
        let ghost tail = from@.skip(open as int);
        let mut close: usize = open;
        while close < chars.len() && chars[close] != '>'
            invariant
                open <= close <= chars.len(),
                chars@ == from@,
                tail == from@.skip(open as int),
                forall|j: int| 0 <= j < close - open ==> !closes()(#[trigger] tail[j]),
            decreases chars.len() - close,
        {
            assert(tail[close - open] == chars[close as int]);
            close += 1;
        }
        proof {
            crate::lists::lemma_first_index(tail, closes());
            if close < chars.len() {
                assert(tail[close - open] == chars[close as int]);
                crate::lists::lemma_first_index_is(tail, closes(), close - open);
            }
        }
        if close < chars.len() {
            trim(from.substring_char(open, close))
        } else {
            trim(from)
        }
    };
    let letters = chars_of(&candidate);
    let mut i: usize = 0;
    while i < letters.len()
        invariant
            i <= letters.len(),
            letters@ == candidate@,
            email_of(from@) == if candidate@.contains('@') {
                Some(candidate@)
            } else {
                None
            },
            forall|j: int| 0 <= j < i ==> letters[j] != '@',
        decreases letters.len() - i,
    {
        if letters[i] == '@' {
            assert(candidate@.contains('@')) by {
                assert(candidate@[i as int] == '@');
            }
            return Some(candidate);
        }
        i += 1;
    }
    assert(!candidate@.contains('@'));
    None
}

/// Form in which a blocked sender is stored and compared: the bare address,
/// lowercased. The display name is the sender's to choose and does not count.
pub open spec fn sender_key(from: Seq<char>) -> Option<Seq<char>> {
    match email_of(from) {
        Some(address) => Some(lowercase(trimmed(address))),
        None => None,
    }
}

/// Form in which a blocked sender is stored and compared.
pub fn normalized_sender(from: &str) -> (key: Option<String>)
    ensures
        key.deep_view() == sender_key(from@),
{
    match extract_email(from) {
        Some(address) => Some(to_lowercase(&trim(&address))),
        None => None,
    }
}

/// Whether one text may stand before another.
pub open spec fn text_order() -> spec_fn(Seq<char>, Seq<char>) -> bool {
    |a: Seq<char>, b: Seq<char>| text_le(a, b)
}

/// Whether a text is not `text`.
pub open spec fn other_text(text: Seq<char>) -> spec_fn(Seq<char>) -> bool {
    |other: Seq<char>| other != text
}

/// The block list once a sender was added.
pub open spec fn with_blocked(list: Seq<Seq<char>>, from: Seq<char>) -> Seq<Seq<char>> {
    match sender_key(from) {
        Some(key) => if list.contains(key) {
            list
        } else {
            stable_sort(list.push(key), text_order())
        },
        None => list,
    }
}

/// The block list once a sender was removed.
pub open spec fn without_blocked(list: Seq<Seq<char>>, from: Seq<char>) -> Seq<Seq<char>> {
    match sender_key(from) {
        Some(key) => list.filter(other_text(key)),
        None => list,
    }
}

/// Whether mail from a sender is blocked.
pub open spec fn is_blocked(list: Seq<Seq<char>>, from: Seq<char>) -> bool {
    sender_key(from) is Some && list.contains(sender_key(from)->0)
}

/// Copies of `texts` other than `text` removed.
pub(crate) fn remove_text(texts: &mut Vec<String>, text: &String)
    ensures
        final(texts).deep_view() == old(texts).deep_view().filter(other_text(text@)),
{
    let taken = take_list(texts);
    *texts = retain_where(
        taken,
        |other: &String| -> (keep: bool)
            ensures
                keep == (other.deep_view() != text@)
            { *other != *text },
        Ghost(other_text(text@)),
    );
}

/// Adds a sender to a block list, reporting whether it was new.
fn block_in(list: &mut Vec<String>, from: &str) -> (added: bool)
    ensures
        final(list).deep_view() == with_blocked(old(list).deep_view(), from@),
        added == (sender_key(from@) is Some && !is_blocked(old(list).deep_view(), from@)),
        !added ==> *final(list) == *old(list),
{
    let key = match normalized_sender(from) {
        Some(key) => key,
        None => {
            return false;
        },
    };
    if holds_text(list, &key) {
        return false;
    }
    let ghost before = list.deep_view();
    let ghost text = key@;
    let mut taken = take_list(list);
    taken.push(key);
    assert(taken.deep_view() =~= before.push(text));
    *list = sort_stable(
        taken,
        |a: &String, b: &String| -> (le: bool)
            ensures
                le == text_le(a.deep_view(), b.deep_view())
            { text_at_most(a, b) },
        Ghost(text_order()),
    );
    true
}

/// Removes a sender from a block list, reporting whether it was there.
fn unblock_in(list: &mut Vec<String>, from: &str) -> (removed: bool)
    ensures
        final(list).deep_view() == without_blocked(old(list).deep_view(), from@),
        removed == is_blocked(old(list).deep_view(), from@),
{
    let key = match normalized_sender(from) {
        Some(key) => key,
        None => {
            return false;
        },
    };
    let ghost before = list.deep_view();
    let count: usize = list.len();
    remove_text(list, &key);
    proof {
        lemma_filter_other_len(before, key@);
        assert(list.deep_view().len() == list.len());
    }
    list.len() != count
}

impl GlobalSettings {
    /// Whether mail from this `From` header is blocked.
    pub fn sender_is_blocked(&self, from: &str) -> (blocked: bool)
        ensures
            blocked == is_blocked(self.blocked_senders.deep_view(), from@),
    {
        match normalized_sender(from) {
            Some(key) => holds_text(&self.blocked_senders, &key),
            None => false,
        }
    }

    /// Adds a sender to the block list, reporting whether it was new.
    pub fn block_sender(&mut self, from: &str) -> (added: bool)
        ensures
            final(self).blocked_senders.deep_view() == with_blocked(old(self).blocked_senders.deep_view(), from@),
            added == (sender_key(from@) is Some && !is_blocked(old(self).blocked_senders.deep_view(), from@)),
            *final(self) == (GlobalSettings { blocked_senders: final(self).blocked_senders, ..*old(self) }),
    {
        block_in(&mut self.blocked_senders, from)
    }

    /// Removes a sender from the block list, reporting whether it was there.
    pub fn unblock_sender(&mut self, from: &str) -> (removed: bool)
        ensures
            final(self).blocked_senders.deep_view() == without_blocked(old(self).blocked_senders.deep_view(), from@),
            removed == is_blocked(old(self).blocked_senders.deep_view(), from@),
            *final(self) == (GlobalSettings { blocked_senders: final(self).blocked_senders, ..*old(self) }),
    {
        unblock_in(&mut self.blocked_senders, from)
    }

    pub fn uses_custom_theme(&self) -> (custom: bool)
        ensures
            custom == self.custom_theme_enabled,
    {
        self.custom_theme_enabled
    }

    /// The theme part of the settings.
    pub open spec fn theme(self) -> ThemeState {
        ThemeState {
            theme_mode: self.theme_mode,
            custom_theme_enabled: self.custom_theme_enabled,
            theme_preset: self.theme_preset,
            custom_theme_palette: self.custom_theme_palette,
            custom_theme_dark_variant: self.custom_theme_dark_variant,
            custom_theme_light_variant: self.custom_theme_light_variant,
        }
    }

    /// The settings agree in everything but the theme.
    pub open spec fn same_but_theme(self, other: GlobalSettings) -> bool {
        &&& self.vim_keybindings == other.vim_keybindings
        &&& self.show_remote_images == other.show_remote_images
        &&& self.force_uniform_font_family == other.force_uniform_font_family
        &&& self.force_uniform_font_size == other.force_uniform_font_size
        &&& self.reply_all_primary == other.reply_all_primary
        &&& self.force_light_email_preview == other.force_light_email_preview
        &&& self.start_maximized == other.start_maximized
        &&& self.collapse_quoted_messages == other.collapse_quoted_messages
        &&& self.group_by_conversation == other.group_by_conversation
        &&& self.notifications_enabled == other.notifications_enabled
        &&& self.tray_enabled == other.tray_enabled
        &&& self.action_delay_enabled == other.action_delay_enabled
        &&& self.action_delay_secs == other.action_delay_secs
        &&& self.send_delay_secs == other.send_delay_secs
        &&& self.compose_show_cc == other.compose_show_cc
        &&& self.compose_show_bcc == other.compose_show_bcc
        &&& self.azure_client_id == other.azure_client_id
        &&& self.azure_tenant == other.azure_tenant
        &&& self.google_client_id == other.google_client_id
        &&& self.google_client_secret == other.google_client_secret
        &&& self.last_account_id == other.last_account_id
        &&& self.default_account_id == other.default_account_id
        &&& self.unified_hidden_account_ids == other.unified_hidden_account_ids
        &&& self.calendar_hidden_account_ids == other.calendar_hidden_account_ids
        &&& self.ical_subscription_seq == other.ical_subscription_seq
        &&& self.calendar_layout == other.calendar_layout
        &&& self.calendar_upcoming_days == other.calendar_upcoming_days
        &&& self.calendar_grid_weeks == other.calendar_grid_weeks
        &&& self.calendar_infinite_scroll == other.calendar_infinite_scroll
        &&& self.expanded_folder_account_ids == other.expanded_folder_account_ids
        &&& self.favorite_folders_collapsed == other.favorite_folders_collapsed
        &&& self.account_order == other.account_order
        &&& self.language == other.language
        &&& self.body_view_mode == other.body_view_mode
        &&& self.mail_cache_limit_mb == other.mail_cache_limit_mb
        &&& self.blocked_senders == other.blocked_senders
    }

    fn theme_state(&self) -> (theme: ThemeState)
        ensures
            theme == self.theme(),
    {
        ThemeState {
            theme_mode: self.theme_mode,
            custom_theme_enabled: self.custom_theme_enabled,
            theme_preset: self.theme_preset,
            custom_theme_palette: self.custom_theme_palette,
            custom_theme_dark_variant: self.custom_theme_dark_variant,
            custom_theme_light_variant: self.custom_theme_light_variant,
        }
    }

    fn set_theme_state(&mut self, theme: ThemeState)
        ensures
            final(self).theme() == theme,
            final(self).same_but_theme(*old(self)),
    {
        self.theme_mode = theme.theme_mode;
        self.custom_theme_enabled = theme.custom_theme_enabled;
        self.theme_preset = theme.theme_preset;
        self.custom_theme_palette = theme.custom_theme_palette;
        self.custom_theme_dark_variant = theme.custom_theme_dark_variant;
        self.custom_theme_light_variant = theme.custom_theme_light_variant;
    }

    /// Puts a preset to use.
    pub fn select_custom_theme_preset(&mut self, preset: ThemePreset)
        ensures
            final(self).theme() == old(self).theme().activated(
                preset.spec_mode(),
                CustomThemeVariant::spec_from_preset(preset),
            ),
            final(self).same_but_theme(*old(self)),
    {
        let mut theme = self.theme_state();
        theme.select_custom_theme_preset(preset);
        self.set_theme_state(theme);
    }

    /// Changes a color of the custom theme.
    pub fn edit_custom_theme_color(&mut self, role: ThemeColorRole, color: u32)
        ensures
            final(self).theme() == old(self).theme().color_edited(role, color),
            final(self).same_but_theme(*old(self)),
    {
        let mut theme = self.theme_state();
        theme.edit_custom_theme_color(role, color);
        self.set_theme_state(theme);
    }

    /// Puts the custom theme of a mode to use.
    pub fn select_custom_theme_mode(&mut self, mode: ThemeMode)
        ensures
            final(self).theme() == old(self).theme().custom_mode_selected(mode),
            final(self).same_but_theme(*old(self)),
    {
        let mut theme = self.theme_state();
        theme.select_custom_theme_mode(mode);
        self.set_theme_state(theme);
    }

    /// Puts the built-in theme of a mode to use.
    pub fn select_builtin_theme_mode(&mut self, mode: ThemeMode)
        ensures
            final(self).theme() == old(self).theme().builtin_mode_selected(mode),
            final(self).same_but_theme(*old(self)),
    {
        let mut theme = self.theme_state();
        theme.select_builtin_theme_mode(mode);
        self.set_theme_state(theme);
    }

    /// Seconds that a common action waits for an undo.
    pub open spec fn action_delay(self) -> u32 {
        if !self.action_delay_enabled {
            0
        } else if self.action_delay_secs < 1 {
            1
        } else if self.action_delay_secs > 300 {
            300
        } else {
            self.action_delay_secs
        }
    }

    /// Effective delay for common actions. The stored duration is retained while
    /// the option is disabled.
    pub fn effective_action_delay_secs(&self) -> (secs: u32)
        ensures
            secs == self.action_delay(),
    {
        if self.action_delay_enabled {
            if self.action_delay_secs < 1 {
                1
            } else if self.action_delay_secs > 300 {
                300
            } else {
                self.action_delay_secs
            }
        } else {
            0
        }
    }

    /// Presentation options of incoming bodies. The font size is a fraction and
    /// comes with the program that draws.
    pub fn mail_body_options(&self) -> (options: MailBodyOptions)
        ensures
            options == (MailBodyOptions {
                show_remote_images: self.show_remote_images,
                force_uniform_font_family: self.force_uniform_font_family,
                force_uniform_font_size: self.force_uniform_font_size,
                force_light_theme: self.force_light_email_preview,
            }),
    {
        MailBodyOptions {
            show_remote_images: self.show_remote_images,
            force_uniform_font_family: self.force_uniform_font_family,
            force_uniform_font_size: self.force_uniform_font_size,
            force_light_theme: self.force_light_email_preview,
        }
    }
}

/// Presentation options passed together to the renderers of incoming bodies.
#[derive(Debug, Clone, Copy, PartialEq, Eq, Structural)]
pub struct MailBodyOptions {
    pub show_remote_images: bool,
    pub force_uniform_font_family: bool,
    pub force_uniform_font_size: bool,
    pub force_light_theme: bool,
}

/// Whether a configuration that has no setting of its own for uniform font sizes
/// takes one over from the setting that once stood for families and sizes both.
pub fn migrated_font_size(has_font_size: bool, uniform_fonts: Option<bool>) -> (value: Option<bool>)
    ensures
        value == if has_font_size {
            None::<bool>
        } else {
            uniform_fonts
        },
{
    if has_font_size {
        None
    } else {
        uniform_fonts
    }
}

proof fn lemma_filter_other_len(list: Seq<Seq<char>>, text: Seq<char>)
    ensures
        list.filter(other_text(text)).len() != list.len() <==> list.contains(text),
        list.filter(other_text(text)).len() <= list.len(),
        forall|x: Seq<char>|
            #![trigger list.filter(other_text(text)).contains(x)]
            list.filter(other_text(text)).contains(x) <==> list.contains(x) && x != text,
    decreases list.len(),
{
    reveal(Seq::filter);
    if list.len() > 0 {
        let init = list.drop_last();
        lemma_filter_other_len(init, text);
        assert(init.push(list.last()) =~= list);
        crate::message_list::lemma_contains_push(init, list.last(), text);
        assert forall|x: Seq<char>|
            #![trigger list.filter(other_text(text)).contains(x)]
            list.filter(other_text(text)).contains(x) <==> list.contains(x) && x != text by {
            crate::message_list::lemma_contains_push(init, list.last(), x);
            crate::message_list::lemma_contains_push(init.filter(other_text(text)), list.last(), x);
        }
    }
}

/// Switching the custom theme to another mode and back gives the theme again.
pub proof fn law_mode_switch_restores_the_theme(settings: ThemeState, mode: ThemeMode)
    requires
        settings.custom_theme_enabled,
    ensures
        ({
            let back = settings.custom_mode_selected(mode).custom_mode_selected(settings.theme_mode);
            &&& back.custom_theme_enabled
            &&& back.theme_mode == settings.theme_mode
            &&& back.current_variant() == settings.current_variant()
        }),
{
}

/// A theme that was kept for a mode is what selecting the mode puts to use, and an
/// edit leaves what the other mode keeps.
pub proof fn law_modes_keep_their_themes(
    settings: ThemeState,
    role: ThemeColorRole,
    color: u32,
    variant: CustomThemeVariant,
)
    ensures
        settings.spec_variant(settings.theme_mode.spec_other()) == Some(variant) ==> settings.color_edited(
            role,
            color,
        ).spec_variant(settings.theme_mode.spec_other()) == Some(variant) && settings.custom_mode_selected(
            settings.theme_mode.spec_other(),
        ).current_variant() == variant,
        settings.color_edited(role, color).current_variant().palette.spec_color(role) == color,
        settings.color_edited(role, color).theme_preset == ThemePreset::Manual,
{
}

/// A sender is blocked exactly from being added to being removed, whatever name
/// comes with the address; other senders are not affected.
pub proof fn law_blocking_is_by_address(list: Seq<Seq<char>>, from: Seq<char>, other: Seq<char>)
    ensures
        sender_key(from) is Some ==> is_blocked(with_blocked(list, from), from),
        sender_key(from) == sender_key(other) ==> is_blocked(list, from) == is_blocked(list, other),
        sender_key(from) != sender_key(other) ==> is_blocked(with_blocked(list, from), other) == is_blocked(
            list,
            other,
        ) && is_blocked(without_blocked(list, from), other) == is_blocked(list, other),
        !is_blocked(without_blocked(list, from), from),
        sender_key(from) is None ==> !is_blocked(list, from) && with_blocked(list, from) == list,
        with_blocked(with_blocked(list, from), from) == with_blocked(list, from),
{
    if let Some(key) = sender_key(from) {
        lemma_with_blocked(list, from);
        lemma_filter_other_len(list, key);
    }
}

/// A block list in order stays in order, and one free of repetitions stays so. A list that a
/// new sender is added to is in order whatever it was before. Adding a new sender and removing
/// it again gives back the senders that were there, and an ordered list as it was.
pub proof fn law_block_list_is_ordered(list: Seq<Seq<char>>, from: Seq<char>)
    ensures
        crate::lists::ordered(list, text_order()) ==> crate::lists::ordered(with_blocked(list, from), text_order()),
        crate::lists::ordered(list, text_order()) ==> crate::lists::ordered(without_blocked(list, from), text_order()),
        list.no_duplicates() ==> with_blocked(list, from).no_duplicates(),
        list.no_duplicates() ==> without_blocked(list, from).no_duplicates(),
        sender_key(from) is Some && !is_blocked(list, from) ==> crate::lists::ordered(
            with_blocked(list, from),
            text_order(),
        ),
        !is_blocked(list, from) ==> without_blocked(with_blocked(list, from), from).to_multiset()
            == list.to_multiset(),
        !is_blocked(list, from) && crate::lists::ordered(list, text_order()) ==> without_blocked(
            with_blocked(list, from),
            from,
        ) == list,
{
    broadcast use vstd::seq_lib::group_to_multiset_ensures;

    if let Some(key) = sender_key(from) {
        lemma_text_ranks();
        if crate::lists::ordered(list, text_order()) {
            lemma_filter_ordered(list, key);
        }
        if list.no_duplicates() {
            lemma_filter_distinct(list, key);
        }
        if !list.contains(key) {
            let pushed = list.push(key);
            let sorted = stable_sort(pushed, text_order());
            crate::lists::lemma_stable_sort(pushed, text_order());
            if list.no_duplicates() {
                assert(pushed.no_duplicates()) by {
                    assert forall|i: int, j: int| 0 <= i < j < pushed.len() implies pushed[i] != pushed[j] by {
                        if j == list.len() {
                            assert(list.contains(list[i]));
                        }
                    }
                }
                pushed.lemma_multiset_has_no_duplicates();
                sorted.lemma_multiset_has_no_duplicates_conv();
            }
            lemma_filter_multiset(sorted, key);
            let back = without_blocked(with_blocked(list, from), from);
            assert(back.to_multiset() =~= list.to_multiset()) by {
                assert forall|x: Seq<char>| sorted.filter(other_text(key)).to_multiset().count(x)
                    == list.to_multiset().count(x) by {
                    assert(sorted.to_multiset().count(x) == pushed.to_multiset().count(x));
                    assert(list.to_multiset().count(key) == 0);
                }
            }
            if crate::lists::ordered(list, text_order()) {
                lemma_filter_ordered(sorted, key);
                lemma_text_total();
                vstd::seq_lib::lemma_sorted_unique(back, list, text_order());
            }
        }
    }
}

proof fn lemma_text_total()
    ensures
        vstd::relations::total_ordering(text_order()),
{
    assert forall|a: Seq<char>| #[trigger] text_order()(a, a) by {
        crate::text::lemma_text_order(a, a, a);
    }
    assert forall|a: Seq<char>, b: Seq<char>| #[trigger] text_order()(a, b) && #[trigger] text_order()(b, a) implies a
        == b by {
        crate::text::lemma_text_order(a, b, b);
    }
    assert forall|a: Seq<char>, b: Seq<char>, c: Seq<char>| #[trigger]
        text_order()(a, b) && #[trigger] text_order()(b, c) implies text_order()(a, c) by {
        crate::text::lemma_text_order(a, b, c);
    }
    assert forall|a: Seq<char>, b: Seq<char>| #[trigger] text_order()(a, b) || #[trigger] text_order()(b, a) by {
        crate::text::lemma_text_order(a, b, b);
    }
}

proof fn lemma_filter_multiset(list: Seq<Seq<char>>, key: Seq<char>)
    ensures
        forall|x: Seq<char>|
            #![trigger list.filter(other_text(key)).to_multiset().count(x)]
            list.filter(other_text(key)).to_multiset().count(x) == if x == key {
                0
            } else {
                list.to_multiset().count(x)
            },
    decreases list.len(),
{
    broadcast use vstd::seq_lib::group_to_multiset_ensures;

    reveal(Seq::filter);
    if list.len() > 0 {
        let init = list.drop_last();
        lemma_filter_multiset(init, key);
        assert(init.push(list.last()) =~= list);
        assert forall|x: Seq<char>|
            #![trigger list.filter(other_text(key)).to_multiset().count(x)]
            list.filter(other_text(key)).to_multiset().count(x) == if x == key {
                0
            } else {
                list.to_multiset().count(x)
            } by {
            assert(init.filter(other_text(key)).to_multiset().count(x) == if x == key {
                0
            } else {
                init.to_multiset().count(x)
            });
            assert(list.to_multiset() == init.to_multiset().insert(list.last()));
        }
    }
}

proof fn lemma_text_ranks()
    ensures
        crate::lists::ranks(text_order()),
{
    assert forall|a: Seq<char>, b: Seq<char>| #![trigger text_order()(a, b)] text_order()(a, b) || text_order()(b, a) by {
        crate::text::lemma_text_order(a, b, b);
    }
    assert forall|a: Seq<char>, b: Seq<char>, c: Seq<char>|
        #![trigger text_order()(a, b), text_order()(b, c)]
        text_order()(a, b) && text_order()(b, c) implies text_order()(a, c) by {
        crate::text::lemma_text_order(a, b, c);
    }
}

proof fn lemma_filter_ordered(list: Seq<Seq<char>>, key: Seq<char>)
    requires
        crate::lists::ordered(list, text_order()),
    ensures
        crate::lists::ordered(list.filter(other_text(key)), text_order()),
    decreases list.len(),
{
    reveal(Seq::filter);
    if list.len() > 0 {
        let init = list.drop_last();
        lemma_filter_ordered(init, key);
        lemma_filter_other_len(init, key);
        let before = init.filter(other_text(key));
        let after = list.filter(other_text(key));
        assert forall|i: int, j: int| #![trigger after[i], after[j]] 0 <= i < j < after.len() implies text_order()(
            after[i],
            after[j],
        ) by {
            if j == before.len() {
                assert(before.contains(before[i]));
                assert(init.contains(before[i]));
                let k = choose|k: int| 0 <= k < init.len() && init[k] == before[i];
                assert(list[k] == before[i]);
                assert(list[list.len() - 1] == after[j]);
            } else {
                assert(before[i] == after[i] && before[j] == after[j]);
            }
        }
    }
}

proof fn lemma_filter_distinct(list: Seq<Seq<char>>, key: Seq<char>)
    requires
        list.no_duplicates(),
    ensures
        list.filter(other_text(key)).no_duplicates(),
    decreases list.len(),
{
    reveal(Seq::filter);
    if list.len() > 0 {
        let init = list.drop_last();
        lemma_filter_distinct(init, key);
        lemma_filter_other_len(init, key);
        let before = init.filter(other_text(key));
        let after = list.filter(other_text(key));
        assert forall|i: int, j: int| #![trigger after[i], after[j]] 0 <= i < j < after.len() implies after[i] != after[j] by {
            if j == before.len() {
                assert(before.contains(before[i]));
                assert(init.contains(before[i]));
                let k = choose|k: int| 0 <= k < init.len() && init[k] == before[i];
                assert(list[k] == before[i]);
                assert(list[list.len() - 1] == after[j]);
            } else {
                assert(before[i] == after[i] && before[j] == after[j]);
            }
        }
    }
}

proof fn lemma_with_blocked(list: Seq<Seq<char>>, from: Seq<char>)
    requires
        sender_key(from) is Some,
    ensures
        forall|x: Seq<char>|
            #![trigger with_blocked(list, from).contains(x)]
            with_blocked(list, from).contains(x) <==> list.contains(x) || x == sender_key(from)->0,
{
    broadcast use vstd::seq_lib::to_multiset_contains;

    let key = sender_key(from)->0;
    if !list.contains(key) {
        let pushed = list.push(key);
        let sorted = stable_sort(pushed, text_order());
        crate::lists::lemma_stable_sort(pushed, text_order());
        assert forall|x: Seq<char>|
            #![trigger with_blocked(list, from).contains(x)]
            with_blocked(list, from).contains(x) <==> list.contains(x) || x == key by {
            crate::message_list::lemma_contains_push(list, key, x);
            assert(sorted.to_multiset().count(x) > 0 <==> pushed.to_multiset().count(x) > 0);
            assert(sorted.contains(x) <==> pushed.contains(x));
        }
    }
}

/// All settings.
#[derive(Debug)]
pub struct Settings {
    pub global: GlobalSettings,
    pub accounts: AccountMap<AccountSettings>,
}

impl Default for Settings {
    fn default() -> (settings: Self)
        ensures
            settings.accounts@ == Map::<Seq<char>, AccountSettings>::empty(),
            settings.accounts.unique(),
            call_ensures(GlobalSettings::default, (), settings.global),
    {
        Settings { global: GlobalSettings::default(), accounts: AccountMap::new() }
    }
}


/// Whether an entry is the one of the message `id`.
pub open spec fn snooze_of(id: Seq<char>) -> spec_fn(SnoozedMessageView) -> bool {
    |entry: SnoozedMessageView| entry.id == id
}

/// Whether an entry is one of another message than `id`.
pub open spec fn snooze_of_other(id: Seq<char>) -> spec_fn(SnoozedMessageView) -> bool {
    |entry: SnoozedMessageView| entry.id != id
}

/// Whether the deadline of an entry has come.
pub open spec fn is_due(now: i128) -> spec_fn(SnoozedMessageView) -> bool {
    |entry: SnoozedMessageView| entry.until <= now
}

/// Whether the deadline of an entry is still to come.
pub open spec fn is_waiting(now: i128) -> spec_fn(SnoozedMessageView) -> bool {
    |entry: SnoozedMessageView| entry.until > now
}

/// The deadlines once a message was put off.
pub open spec fn with_snooze(list: Seq<SnoozedMessageView>, id: Seq<char>, until: i128) -> Seq<SnoozedMessageView> {
    list.filter(snooze_of_other(id)).push(SnoozedMessageView { id, until })
}

/// The deadline of a message.
pub open spec fn deadline(list: Seq<SnoozedMessageView>, id: Seq<char>) -> Option<i128> {
    match first_where(list, snooze_of(id)) {
        Some(entry) => Some(entry.until),
        None => None,
    }
}

impl Settings {
    /// The settings of an account, or those that an account starts with.
    pub open spec fn account_view(self, id: Seq<char>) -> AccountSettingsView {
        if self.accounts@.contains_key(id) {
            self.accounts@[id].deep_view()
        } else {
            default_account_settings()
        }
    }

    /// The settings of an account, to be changed in place; an account that has
    /// none gets those that an account starts with.
    pub fn account_mut(&mut self, id: &AccountId) -> (account: &mut AccountSettings)
        ensures
            account.deep_view() == old(self).account_view(id.0@),
            old(self).accounts@.contains_key(id.0@) ==> *account == old(self).accounts@[id.0@],
            final(self).accounts@ == old(self).accounts@.insert(id.0@, *final(account)),
            final(self).global == old(self).global,
            old(self).accounts.unique() ==> final(self).accounts.unique(),
    {
        if !self.accounts.contains_key(id) {
            self.accounts.insert(id.clone(), AccountSettings::default());
        }
        let ghost before = self.accounts@;
        let account = self.accounts.get_mut(id).unwrap();
        proof {
            assert forall|value: AccountSettings|
                #[trigger] before.insert(id.0@, value) == old(self).accounts@.insert(id.0@, value) by {
                assert(before.insert(id.0@, value) =~= old(self).accounts@.insert(id.0@, value));
            }
        }
        account
    }

    /// A copy of the settings of an account, or of those that an account starts with.
    pub fn account_or_default(&self, id: Option<&AccountId>) -> (account: AccountSettings)
        ensures
            account.deep_view() == match id {
                Some(id) => self.account_view(id.0@),
                None => default_account_settings(),
            },
    {
        match id {
            Some(id) => match self.accounts.get(id) {
                Some(account) => account.clone(),
                None => AccountSettings::default(),
            },
            None => AccountSettings::default(),
        }
    }

    /// Puts a message off until `until`, replacing any deadline it already had.
    pub fn snooze_message(&mut self, account_id: &AccountId, id: &str, until: i128)
        ensures
            final(self).account_view(account_id.0@) == (AccountSettingsView {
                snoozed_messages: with_snooze(
                    old(self).account_view(account_id.0@).snoozed_messages,
                    id@,
                    until,
                ),
                ..old(self).account_view(account_id.0@)
            }),
            final(self).accounts@ == old(self).accounts@.insert(
                account_id.0@,
                final(self).accounts@[account_id.0@],
            ),
            final(self).global == old(self).global,
            old(self).accounts.unique() ==> final(self).accounts.unique(),
    {
        let account = self.account_mut(account_id);
        let wanted = id.to_owned();
        let taken = take_list(&mut account.snoozed_messages);
        let ghost before = taken.deep_view();
        let mut kept = retain_where(
            taken,
            |entry: &SnoozedMessage| -> (keep: bool)
                ensures
                    keep == (entry.deep_view().id != wanted@)
                { entry.id != wanted },
            Ghost(snooze_of_other(id@)),
        );
        let ghost filtered = kept.deep_view();
        kept.push(SnoozedMessage { id: wanted, until });
        assert(kept.deep_view() =~= with_snooze(before, id@, until));
        account.snoozed_messages = kept;
    }

    /// Cancels a message's deadline, reporting whether it had one.
    pub fn unsnooze_message(&mut self, account_id: &AccountId, id: &str) -> (had: bool)
        ensures
            old(self).accounts@.contains_key(account_id.0@) ==> final(self).account_view(account_id.0@) == (
            AccountSettingsView {
                snoozed_messages: old(self).account_view(account_id.0@).snoozed_messages.filter(
                    snooze_of_other(id@),
                ),
                ..old(self).account_view(account_id.0@)
            }) && final(self).accounts@ == old(self).accounts@.insert(
                account_id.0@,
                final(self).accounts@[account_id.0@],
            ),
            !old(self).accounts@.contains_key(account_id.0@) ==> *final(self) == *old(self),
            had == (deadline(old(self).account_view(account_id.0@).snoozed_messages, id@) is Some),
            final(self).global == old(self).global,
            old(self).accounts.unique() ==> final(self).accounts.unique(),
    {
        let wanted = id.to_owned();
        match self.accounts.get_mut(account_id) {
            None => false,
            Some(account) => {
                let before: usize = account.snoozed_messages.len();
                let taken = take_list(&mut account.snoozed_messages);
                let ghost list = taken.deep_view();
                account.snoozed_messages = retain_where(
                    taken,
                    |entry: &SnoozedMessage| -> (keep: bool)
                        ensures
                            keep == (entry.deep_view().id != wanted@)
                        { entry.id != wanted },
                    Ghost(snooze_of_other(id@)),
                );
                proof {
                    lemma_unsnooze(list, id@);
                    assert(account.snoozed_messages.deep_view().len() == account.snoozed_messages.len());
                    assert(list.len() == before);
                }
                account.snoozed_messages.len() != before
            },
        }
    }

    /// The deadline of a message.
    pub fn snoozed_until(&self, account_id: &AccountId, id: &str) -> (until: Option<i128>)
        ensures
            until == deadline(self.account_view(account_id.0@).snoozed_messages, id@),
    {
        match self.accounts.get(account_id) {
            None => None,
            Some(account) => {
                let wanted = id.to_owned();
                let found = position_where(
                    &account.snoozed_messages,
                    |entry: &SnoozedMessage| -> (same: bool)
                        ensures
                            same == (entry.deep_view().id == wanted@)
                        { entry.id == wanted },
                    Ghost(snooze_of(id@)),
                );
                match found {
                    Some(i) => {
                        assert(account.snoozed_messages.deep_view()[i as int]
                            == account.snoozed_messages[i as int].deep_view());
                        Some(account.snoozed_messages[i].until)
                    },
                    None => None,
                }
            },
        }
    }
}

proof fn lemma_unsnooze(list: Seq<SnoozedMessageView>, id: Seq<char>)
    ensures
        list.filter(snooze_of_other(id)).len() <= list.len(),
        list.filter(snooze_of_other(id)).len() != list.len() <==> deadline(list, id) is Some,
        deadline(list.filter(snooze_of_other(id)), id) is None,
        forall|other: Seq<char>|
            other != id ==> #[trigger] deadline(list.filter(snooze_of_other(id)), other) == deadline(list, other),
    decreases list.len(),
{
    reveal(Seq::filter);
    let kept = list.filter(snooze_of_other(id));
    if list.len() > 0 {
        let init = list.drop_last();
        let before = init.filter(snooze_of_other(id));
        lemma_unsnooze(init, id);
        lemma_deadline_push(init, list.last());
        lemma_deadline_push(before, list.last());
        assert(init.push(list.last()) =~= list);
        assert forall|other: Seq<char>| other != id implies #[trigger] deadline(kept, other) == deadline(
            list,
            other,
        ) by {
            assert(deadline(before, other) == deadline(init, other));
        }
    }
}

/// A further entry counts only where there was none.
proof fn lemma_deadline_push(list: Seq<SnoozedMessageView>, entry: SnoozedMessageView)
    ensures
        forall|id: Seq<char>|
            #![trigger deadline(list.push(entry), id)]
            deadline(list.push(entry), id) == match deadline(list, id) {
                Some(until) => Some(until),
                None => if entry.id == id {
                    Some(entry.until)
                } else {
                    None
                },
            },
{
    assert forall|id: Seq<char>|
        #![trigger deadline(list.push(entry), id)]
        deadline(list.push(entry), id) == match deadline(list, id) {
            Some(until) => Some(until),
            None => if entry.id == id {
                Some(entry.until)
            } else {
                None
            },
        } by {
        let after = list.push(entry);
        crate::lists::lemma_first_index(list, snooze_of(id));
        crate::lists::lemma_first_index(after, snooze_of(id));
        match first_index(list, snooze_of(id)) {
            Some(i) => {
                assert(after[i] == list[i]);
                assert forall|j: int| 0 <= j < i implies !snooze_of(id)(#[trigger] after[j]) by {
                    assert(!snooze_of(id)(list[j]));
                }
                crate::lists::lemma_first_index_is(after, snooze_of(id), i);
            },
            None => {
                if entry.id == id {
                    assert forall|j: int| 0 <= j < list.len() implies !snooze_of(id)(#[trigger] after[j]) by {
                        assert(!snooze_of(id)(list[j]));
                    }
                    crate::lists::lemma_first_index_is(after, snooze_of(id), list.len() as int);
                } else if first_index(after, snooze_of(id)) is Some {
                    let i = first_index(after, snooze_of(id))->0;
                    if i < list.len() {
                        assert(snooze_of(id)(list[i]));
                    }
                }
            },
        }
    }
}

/// A message has the deadline it was last put off to, none once that was
/// cancelled, and other messages keep theirs.
pub proof fn law_snoozing(list: Seq<SnoozedMessageView>, id: Seq<char>, until: i128, other: Seq<char>)
    ensures
        deadline(with_snooze(list, id, until), id) == Some(until),
        other != id ==> deadline(with_snooze(list, id, until), other) == deadline(list, other),
        deadline(list.filter(snooze_of_other(id)), id) is None,
        other != id ==> deadline(list.filter(snooze_of_other(id)), other) == deadline(list, other),
{
    lemma_unsnooze(list, id);
    lemma_deadline_push(list.filter(snooze_of_other(id)), SnoozedMessageView { id, until });
}

/// The messages of one account whose deadline has come.
pub open spec fn due_of_account(account: Seq<char>, list: Seq<SnoozedMessageView>, now: i128) -> Seq<
    (Seq<char>, Seq<char>),
> {
    list.filter(is_due(now)).map_values(|entry: SnoozedMessageView| (account, entry.id))
}

/// The messages whose deadline has come, account by account.
pub open spec fn due_of(entries: Seq<(AccountId, AccountSettings)>, now: i128) -> Seq<(Seq<char>, Seq<char>)>
    decreases entries.len(),
{
    if entries.len() == 0 {
        Seq::empty()
    } else {
        let last = entries.last();
        due_of(entries.drop_last(), now) + due_of_account(
            last.0.0@,
            last.1.snoozed_messages.deep_view(),
            now,
        )
    }
}

/// The settings of an account once its due deadlines were taken.
pub open spec fn without_due(account: AccountSettingsView, now: i128) -> AccountSettingsView {
    AccountSettingsView { snoozed_messages: account.snoozed_messages.filter(is_waiting(now)), ..account }
}

/// Parts a list of deadlines in those that have come and those that have not.
fn split_due(list: Vec<SnoozedMessage>, account: &AccountId, now: i128, due: &mut Vec<(AccountId, String)>) -> (waiting:
    Vec<SnoozedMessage>)
    ensures
        waiting.deep_view() == list.deep_view().filter(is_waiting(now)),
        final(due).deep_view() == old(due).deep_view() + due_of_account(account.0@, list.deep_view(), now),
{
    let ghost all = list.deep_view();
    let ghost raw = list@;
    let ghost start = due.deep_view();
    let ghost name = |entry: SnoozedMessageView| (account.0@, entry.id);
    let mut waiting: Vec<SnoozedMessage> = Vec::new();
    proof {
        reveal(Seq::filter);
        assert(all.take(0).filter(is_waiting(now)) =~= Seq::<SnoozedMessageView>::empty());
        assert(start + due_of_account(account.0@, all.take(0), now) =~= start);
    }
    for entry in iter: list.into_iter()
        invariant
            iter.seq() == raw,
            all.len() == raw.len(),
            forall|i: int| 0 <= i < raw.len() ==> all[i] == #[trigger] raw[i].deep_view(),
            waiting.deep_view() == all.take(iter.index() as int).filter(is_waiting(now)),
            due.deep_view() == start + due_of_account(account.0@, all.take(iter.index() as int), now),
    {
        let ghost n = iter.index() as int;
        let ghost waiting_before = waiting.deep_view();
        let ghost due_before = due.deep_view();
        let ghost shown = entry.deep_view();
        assert(entry == raw[n]);
        proof {
            reveal(Seq::filter);
            assert(all.take(n + 1).drop_last() =~= all.take(n));
            let front = all.take(n).filter(is_due(now));
            assert(front.push(all[n]).map_values(|entry: SnoozedMessageView| (account.0@, entry.id))
                =~= front.map_values(|entry: SnoozedMessageView| (account.0@, entry.id)).push((account.0@, all[n].id)));
        }
        if entry.until <= now {
            due.push((account.clone(), entry.id));
            assert(due.deep_view() =~= due_before.push((account.0@, shown.id)));
            assert(due.deep_view() =~= start + due_of_account(account.0@, all.take(n + 1), now));
        } else {
            waiting.push(entry);
            assert(waiting.deep_view() =~= waiting_before.push(shown));
        }
    }
    assert(all.take(all.len() as int) =~= all);
    waiting
}

impl Settings {
    /// Deadlines that have come due, cleared from the settings as they are
    /// returned, so that waking a message happens once.
    pub fn take_due_snoozes(&mut self, now: i128) -> (due: Vec<(AccountId, String)>)
        ensures
            due.deep_view() == due_of(old(self).accounts.entries@, now),
            final(self).accounts.entries.len() == old(self).accounts.entries.len(),
            forall|i: int|
                0 <= i < final(self).accounts.entries.len() ==> {
                    let before = old(self).accounts.entries[i];
                    let after = #[trigger] final(self).accounts.entries[i];
                    after.0 == before.0 && after.1.deep_view() == without_due(before.1.deep_view(), now)
                },
            final(self).global == old(self).global,
            old(self).accounts.unique() ==> final(self).accounts.unique(),
    {
        let ghost start = self.accounts.entries@;
        let mut due: Vec<(AccountId, String)> = Vec::new();
        let mut i: usize = 0;
        while i < self.accounts.entries.len()
            invariant
                i <= self.accounts.entries.len(),
                start == old(self).accounts.entries@,
                start.len() == self.accounts.entries.len(),
                due.deep_view() == due_of(start.take(i as int), now),
                self.global == old(self).global,
                forall|j: int|
                    0 <= j < i ==> {
                        let after = #[trigger] self.accounts.entries@[j];
                        after.0 == start[j].0 && after.1.deep_view() == without_due(start[j].1.deep_view(), now)
                    },
                forall|j: int| i <= j < start.len() ==> #[trigger] self.accounts.entries@[j] == start[j],
            decreases self.accounts.entries.len() - i,
        {
            let id = self.accounts.entries[i].0.clone();
            let list = take_list(&mut self.accounts.entries[i].1.snoozed_messages);
            assert(start.take(i + 1).drop_last() =~= start.take(i as int));
            assert(self.accounts.entries@[i as int].0 == start[i as int].0);
            let ghost before = due.deep_view();
            let waiting = split_due(list, &id, now, &mut due);
            self.accounts.entries[i].1.snoozed_messages = waiting;
            assert(due.deep_view() =~= due_of(start.take(i + 1), now));
            i += 1;
        }
        assert(start.take(start.len() as int) =~= start);
        proof {
            if old(self).accounts.unique() {
                assert forall|a: int, b: int|
                    #![trigger self.accounts.entries[a], self.accounts.entries[b]]
                    0 <= a < b < self.accounts.entries.len() implies self.accounts.entries[a].0.0@
                    != self.accounts.entries[b].0.0@ by {
                    assert(old(self).accounts.entries[a].0.0@ != old(self).accounts.entries[b].0.0@);
                }
            }
        }
        due
    }
}

/// A deadline is returned once: when it was taken none is due.
pub proof fn law_due_deadlines_are_taken_once(
    before: Seq<(AccountId, AccountSettings)>,
    after: Seq<(AccountId, AccountSettings)>,
    now: i128,
)
    requires
        after.len() == before.len(),
        forall|i: int|
            0 <= i < after.len() ==> (#[trigger] after[i]).1.deep_view() == without_due(before[i].1.deep_view(), now),
    ensures
        due_of(after, now).len() == 0,
    decreases after.len(),
{
    if after.len() > 0 {
        let shorter = after.drop_last();
        assert forall|i: int| 0 <= i < shorter.len() implies (#[trigger] shorter[i]).1.deep_view() == without_due(
            before.drop_last()[i].1.deep_view(),
            now,
        ) by {
            assert(shorter[i] == after[i]);
        }
        law_due_deadlines_are_taken_once(before.drop_last(), shorter, now);
        let n = after.len() - 1;
        assert(after[n] == after.last());
        lemma_waiting_is_not_due(before[n].1.snoozed_messages.deep_view(), now);
    }
}

proof fn lemma_waiting_is_not_due(list: Seq<SnoozedMessageView>, now: i128)
    ensures
        list.filter(is_waiting(now)).filter(is_due(now)).len() == 0,
    decreases list.len(),
{
    reveal(Seq::filter);
    if list.len() > 0 {
        let init = list.drop_last();
        lemma_waiting_is_not_due(init, now);
        let kept = init.filter(is_waiting(now));
        assert(kept.push(list.last()).drop_last() =~= kept);
    }
}

} // verus!
