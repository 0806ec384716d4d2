use aviary::bulk_events::{BulkCompletion, BulkReply};
use aviary::dispatch::{AccountEvt, AnswerEvt, CalendarEvt, Evt, FolderEvt, MailEvt, OtherEvt, TagEvt};
use aviary::editors::next_editor;
use aviary::headers::{dedup_append, preserve_last_action};
use aviary::kanban::{CardDrag, MergedTagTarget};
use aviary::list_pane::BulkButton;
use aviary::message_menu::{MenuCommand, MenuLine};
use aviary::model::{Account, AccountId, LastAction, MailFolder, MessageHeader, MessageRef, Provider, Tag};
use aviary::navigation::ListMovement;
use aviary::recipes::{execution_of, is_quick_action_execution, merge_images, quick_forward_recipients_valid};
use aviary::requests::{NotificationActionKind, TrayAction};
use aviary::retag::replace_tag_value;
use aviary::settings::{InlineImage, QuickAction, Settings};
use aviary::state::{AuthState, AviaryApp, CalendarEvent, ComposeHandle, Effect, Message, MessageMark, Notice, NoticeText, SenderHistoryState, Shortened};

fn aid(id: &str) -> AccountId {
    AccountId(id.into())
}

fn account(id: &str, provider: Provider) -> Account {
    Account { id: aid(id), provider, display_name: id.into(), email: format!("{id}@example.test") }
}

fn header(account: &str, id: &str, received: i128) -> MessageHeader {
    MessageHeader {
        id: id.into(),
        account_id: aid(account),
        subject: "Subject".into(),
        from: "Contact A <contact-a@example.test>".into(),
        received,
        preview: String::new(),
        is_read: true,
        is_flagged: false,
        has_attachments: false,
        tags: Vec::new(),
        last_action: None,
        last_action_at: None,
        conversation_id: None,
        internet_message_id: None,
    }
}

fn message(account: &str, id: &str) -> Message {
    Message {
        header: header(account, id, 1),
        body: "body".into(),
        raw_body: None,
        tags: Vec::new(),
        draft_id: None,
        inline_images: Vec::new(),
        attachments: Vec::new(),
        invitation: None,
    }
}

fn app_with(ids: &[&str]) -> AviaryApp {
    let mut app = AviaryApp::new(Settings::default());
    for id in ids {
        app.handle_event(
            Evt::Account(AccountEvt::AccountReady { account: account(id, Provider::Google) }),
            true,
            false,
            false,
        );
    }
    app.effects.clear();
    app
}

fn listed(app: &AviaryApp) -> Vec<&str> {
    app.mailbox.messages.iter().map(|header| header.id.as_str()).collect()
}

#[test]
fn an_account_that_is_ready_is_shown() {
    let mut app = AviaryApp::new(Settings::default());
    assert!(app.handle_event(
        Evt::Account(AccountEvt::AccountReady { account: account("a", Provider::Google) }),
        true,
        false,
        false
    ));
    assert_eq!(app.accounts.len(), 1);
    assert!(matches!(app.auth, AuthState::Authenticated));
    assert!(app.event_relevant(&aid("a")));
    assert!(app.effects.iter().any(|effect| matches!(effect, Effect::LoadFolders { account_id } if account_id.0 == "a")));
}

#[test]
fn events_of_unknown_accounts_change_nothing() {
    let mut app = app_with(&["a"]);
    let evt = Evt::Mail(MailEvt::Messages { account_id: aid("b"), messages: vec![header("b", "x", 1)] });
    assert!(!app.handle_event(evt, false, false, false));
    assert!(listed(&app).is_empty());
    assert!(app.effects.is_empty());
    let folders = vec![MailFolder {
        id: "f".into(),
        display_name: "f".into(),
        parent_id: None,
        well_known_name: None,
        total_item_count: 0,
        unread_item_count: 0,
    }];
    assert!(!app.handle_event(Evt::Folder(FolderEvt::Folders { account_id: aid("b"), folders }), false, false, false));
}

#[test]
fn events_of_a_calendar_that_is_shown_are_handed_on() {
    let mut app = app_with(&["a"]);
    let appointment =
        || CalendarEvent { account_id: aid("a"), id: "event-1".into(), start: 120, end: 180 };
    let window = |id: &str| Evt::CalendarEvents { account_id: aid(id), from: 100, to: 200, events: vec![appointment()] };

    assert!(app.handle_event(window("a"), false, false, false));
    assert_eq!(app.effects.len(), 1);
    assert!(matches!(
        &app.effects[0],
        Effect::ShowCalendarEvents { account_id, from: 100, to: 200, events }
            if account_id.0 == "a" && events.len() == 1 && events[0].id == "event-1" && events[0].start == 120
    ));

    app.effects.clear();
    assert!(!app.handle_event(window("b"), false, false, false));
    app.settings.global.calendar_hidden_account_ids.push("a".into());
    assert!(!app.handle_event(window("a"), false, false, false));
    app.on_calendar_events(aid("a"), 100, 200, vec![appointment()]);
    assert!(app.effects.is_empty());

    let feed = Evt::Calendar(CalendarEvt::IcalEvents {
        subscription_id: "feed".into(),
        from: 1,
        to: 2,
        events: vec![appointment()],
    });
    assert!(app.handle_event(feed, false, false, false));
    assert!(matches!(
        &app.effects[0],
        Effect::ShowFeedEvents { subscription_id, from: 1, to: 2, events } if subscription_id == "feed" && events.len() == 1
    ));
}

#[test]
fn a_proofreading_service_that_is_ready_is_asked_again() {
    let mut app = app_with(&["a"]);
    assert!(app.handle_event(Evt::Answer(AnswerEvt::LanguageToolStatus { ready: false }), false, false, false));
    assert!(app.effects.is_empty());
    assert!(app.handle_event(Evt::Answer(AnswerEvt::LanguageToolStatus { ready: true }), false, false, false));
    assert!(matches!(app.effects[..], [Effect::RetryProofreading]));
}

#[test]
fn answers_go_to_the_views_that_wait_for_them() {
    let mut app = app_with(&["a"]);
    let fetched = |id: &str| {
        Evt::Answer(AnswerEvt::AttachmentFetched {
            account_id: aid(id),
            message_id: "m".into(),
            attachment_id: "file".into(),
            bytes: vec![1, 2],
        })
    };
    assert!(app.handle_event(fetched("a"), false, false, false));
    assert!(!app.handle_event(fetched("b"), false, false, false));
    assert!(matches!(
        &app.effects[..],
        [Effect::ShowAttachment { attachment_id, bytes, .. }] if attachment_id == "file" && *bytes == vec![1, 2]
    ));

    app.effects.clear();
    let failed = AnswerEvt::AttachmentFetchError {
        account_id: aid("a"),
        message_id: "m".into(),
        attachment_id: "file".into(),
        error: "gone".into(),
    };
    assert!(app.handle_event(Evt::Answer(failed), false, false, false));
    assert!(app.handle_event(Evt::Answer(AnswerEvt::RecipientUsage), false, false, false));
    let checked = AnswerEvt::LanguageToolChecked {
        editor_id: "e".into(),
        block_id: 1,
        revision: 2,
        checked: "text".into(),
    };
    assert!(!app.handle_event(Evt::Answer(checked), false, false, false));
    let unchecked = AnswerEvt::LanguageToolCheckFailed { editor_id: "e".into(), block_id: 1, revision: 2 };
    assert!(!app.handle_event(Evt::Answer(unchecked), false, false, false));
    let image = AnswerEvt::InlineImageFetched {
        editor_id: "e".into(),
        cid: "c".into(),
        bytes: vec![9],
        mime: "image/png".into(),
    };
    assert!(!app.handle_event(Evt::Answer(image), false, false, false));
    let no_image = AnswerEvt::InlineImageFetchError { editor_id: "e".into(), cid: "c".into() };
    assert!(!app.handle_event(Evt::Answer(no_image), false, false, false));
    assert!(!app.handle_event(Evt::Answer(AnswerEvt::Status), false, false, false));
    assert!(matches!(
        &app.effects[..],
        [
            Effect::AttachmentFailed { error, .. },
            Effect::MergeUsage,
            Effect::OfferProofreading { block_id: 1, revision: 2, checked, .. },
            Effect::OfferProofreadingFailure { block_id: 1, revision: 2, .. },
            Effect::OfferInlineImage { cid, mime, .. },
            Effect::OfferInlineImageFailure { .. },
        ] if error == "gone" && checked == "text" && cid == "c" && mime == "image/png"
    ));
}

#[test]
fn rows_that_went_away_are_no_longer_hovered() {
    let mut app = app_with(&["a"]);
    let messages = || Evt::Mail(MailEvt::Messages { account_id: aid("a"), messages: vec![header("a", "m", 1)] });
    assert!(app.handle_event(messages(), false, true, true));
    assert!(matches!(app.effects.last(), Some(Effect::PruneRowHover)));
    app.effects.clear();
    let foreign = Evt::Mail(MailEvt::Messages { account_id: aid("b"), messages: Vec::new() });
    assert!(!app.handle_event(foreign, false, true, true));
    assert!(app.effects.is_empty());
}

#[test]
fn messages_are_listed_newest_first_and_once() {
    let mut app = app_with(&["a"]);
    let messages = vec![header("a", "new", 20), header("a", "old", 10)];
    assert!(app.handle_event(Evt::Mail(MailEvt::Messages { account_id: aid("a"), messages }), false, true, false));
    assert_eq!(listed(&app), vec!["new", "old"]);
    assert_eq!(app.message_list_revision, 1);
    let more = vec![header("a", "old", 10), header("a", "older", 5)];
    let evt = Evt::Mail(MailEvt::MoreMessages { account_id: aid("a"), messages: more, has_more: true });
    assert!(app.handle_event(evt, false, true, false));
    assert_eq!(listed(&app), vec!["new", "old", "older"]);
    assert!(app.mailbox.pagination.has_more);
}

#[test]
fn what_was_done_with_a_message_is_not_forgotten() {
    let mut known = header("a", "m", 1);
    known.last_action = Some(LastAction::Replied);
    known.last_action_at = Some(5);
    let kept = preserve_last_action(&vec![known], vec![header("a", "m", 1), header("a", "n", 2)]);
    assert_eq!(kept[0].last_action, Some(LastAction::Replied));
    assert_eq!(kept[1].last_action, None);
    let all = dedup_append(vec![header("a", "m", 1)], vec![header("a", "m", 1), header("a", "n", 2)]);
    assert_eq!(all.len(), 2);
}

#[test]
fn accounts_that_signed_out_are_not_shown() {
    let mut app = app_with(&["a", "b"]);
    app.mailbox.messages = vec![header("a", "x", 2), header("b", "y", 1)];
    app.settings.global.default_account_id = Some("a".into());
    assert!(app.handle_event(Evt::Account(AccountEvt::LoggedOut { account_id: aid("a") }), true, true, false));
    assert_eq!(app.accounts.len(), 1);
    assert_eq!(listed(&app), vec!["y"]);
    assert_eq!(app.settings.global.default_account_id, Some("b".to_string()));
    assert!(app.account(&aid("a")).is_none());
}

#[test]
fn selecting_is_undone() {
    let mut app = app_with(&["a"]);
    app.mailbox.messages = vec![header("a", "x", 2), header("a", "y", 1)];
    let x = app.mailbox.messages[0].reference();
    app.toggle_message_selection(x.clone(), true);
    assert_eq!(app.selected_message_headers().len(), 1);
    app.toggle_message_selection(x, false);
    assert!(app.mailbox.selection.messages.is_empty());
    app.select_all_visible_messages();
    assert_eq!(app.mailbox.selection.messages.len(), 2);
    app.clear_message_selection();
    assert!(app.mailbox.selection.messages.is_empty());
}

#[test]
fn ranges_are_what_is_seen() {
    let mut app = app_with(&["a"]);
    app.mailbox.messages = vec![header("a", "x", 3), header("a", "y", 2), header("a", "z", 1)];
    let entries = app.build_message_list_entries();
    app.toggle_message_selection(app.mailbox.messages[0].reference(), true);
    app.select_message_range(app.mailbox.messages[1].reference(), &entries);
    let chosen: Vec<&str> = app.mailbox.selection.messages.iter().map(|reference| reference.id.as_str()).collect();
    assert_eq!(chosen.len(), 2);
    assert!(chosen.contains(&"x") && chosen.contains(&"y"));
}

#[test]
fn keys_step_through_the_list() {
    let mut app = app_with(&["a"]);
    app.mailbox.messages = vec![header("a", "x", 3), header("a", "y", 2)];
    let entries = app.build_message_list_entries();
    let first = app.navigate_messages(ListMovement::Next, &entries).expect("a target");
    assert_eq!(first.1.id, "x");
    app.mailbox.viewer.selected_id = Some("x".into());
    assert_eq!(app.navigate_messages(ListMovement::Next, &entries).expect("a target").1.id, "y");
    assert_eq!(app.navigate_messages(ListMovement::Previous, &entries).expect("a target").1.id, "x");
    assert_eq!(app.message_neighbor_after_removal(&"x".to_string(), &entries).expect("a neighbor").id, "y");
}

#[test]
fn folding_is_undone() {
    let mut app = app_with(&["a"]);
    app.toggle_section_collapsed("pinned".into());
    assert_eq!(app.mailbox.folds.collapsed_sections, vec!["pinned".to_string()]);
    app.toggle_section_collapsed("pinned".into());
    assert!(app.mailbox.folds.collapsed_sections.is_empty());
    app.toggle_conversation_expanded((aid("a"), "c".into()));
    assert_eq!(app.mailbox.folds.expanded_conversations.len(), 1);
    app.toggle_conversation_expanded((aid("a"), "c".into()));
    assert!(app.mailbox.folds.expanded_conversations.is_empty());
    assert_eq!(app.message_list_revision, 4);
}

#[test]
fn filters_are_undone() {
    let mut app = app_with(&["a"]);
    app.toggle_tag_filter(aid("a"), "t".into());
    assert_eq!(app.message_filters().tag_count, 1);
    app.toggle_tag_filter(aid("a"), "t".into());
    assert_eq!(app.message_filters().tag_count, 0);
    app.mailbox.messages = vec![header("a", "x", 2), header("a", "y", 1)];
    app.mailbox.messages[1].is_flagged = true;
    app.toggle_flagged_only();
    assert_eq!(app.filtered_message_headers().len(), 1);
    app.toggle_flagged_only();
    assert_eq!(app.filtered_message_headers().len(), 2);
}

#[test]
fn the_toolbar_acts_on_what_is_selected() {
    let mut app = app_with(&["a"]);
    app.mailbox.messages = vec![header("a", "x", 2), header("a", "y", 1)];
    app.toggle_message_selection(app.mailbox.messages[0].reference(), true);
    let toolbar = app.bulk_message_toolbar();
    assert_eq!((toolbar.count, toolbar.all_selected, toolbar.one_account), (1, false, true));
    app.effects.clear();
    app.press_bulk_button(BulkButton::MarkUnread);
    let Some(Effect::SetReadStates { marks, read }) = app.effects.first() else {
        panic!("expected marks");
    };
    assert!(!read);
    let MessageMark { reference, marked } = &marks[0];
    assert_eq!((reference.id.as_str(), *marked), ("x", true));
}

#[test]
fn offline_menus_change_nothing() {
    let mut app = app_with(&["a"]);
    app.mailbox.messages = vec![header("a", "x", 2)];
    let item = app.mailbox.messages[0].clone();
    let enabled = |app: &AviaryApp, wanted: MenuCommand| {
        app.message_row_menu(&item, true, false, &Vec::new()).iter().any(
            |line| matches!(line, MenuLine::Item { command, enabled, .. } if *command == wanted && *enabled),
        )
    };
    assert!(enabled(&app, MenuCommand::Delete));
    assert!(enabled(&app, MenuCommand::MarkUnread));
    app.offline_accounts = vec![aid("a")];
    assert!(!enabled(&app, MenuCommand::Delete));
}

#[test]
fn favorites_are_kept_once() {
    let mut app = app_with(&["a"]);
    app.set_folder_pinned(&aid("a"), &"f".to_string(), true);
    app.set_folder_pinned(&aid("a"), &"f".to_string(), true);
    assert_eq!(app.settings.account_or_default(Some(&aid("a"))).pinned_folder_ids, vec!["f".to_string()]);
    app.set_folder_pinned(&aid("a"), &"f".to_string(), false);
    assert!(app.settings.account_or_default(Some(&aid("a"))).pinned_folder_ids.is_empty());
}

#[test]
fn folders_need_a_name() {
    let mut app = app_with(&["a"]);
    assert!(!app.create_folder(&aid("a"), None, "   "));
    assert!(app.effects.is_empty());
    assert!(app.create_folder(&aid("a"), None, " Projects "));
    assert!(matches!(&app.effects[0], Effect::CreateFolder { name, .. } if name == "Projects"));
}

#[test]
fn tags_are_put_on_and_taken_off() {
    let mut app = app_with(&["a"]);
    app.mailbox.messages = vec![header("a", "x", 2)];
    let tag = Tag { id: "t".into(), display_name: "Work".into(), color: None };
    assert!(app.handle_event(Evt::Tag(TagEvt::Tags { account_id: aid("a"), tags: vec![tag] }), false, false, false));
    let applied = |added: bool| {
        Evt::Tag(TagEvt::TagApplied { account_id: aid("a"), message_id: "x".into(), tag_id: "t".into(), added })
    };
    assert!(app.handle_event(applied(true), false, true, false));
    assert!(app.handle_event(applied(true), false, true, false));
    assert_eq!(app.mailbox.messages[0].tags.len(), 1);
    assert!(app.handle_event(applied(false), false, true, false));
    assert!(app.mailbox.messages[0].tags.is_empty());
}

#[test]
fn a_renamed_tag_is_kept_once() {
    let mut tags = vec!["old".to_string(), "new".to_string(), "other".to_string()];
    replace_tag_value(&mut tags, &"old".to_string(), &"new".to_string());
    assert_eq!(tags.iter().filter(|tag| tag.as_str() == "new").count(), 1);
    assert!(!tags.contains(&"old".to_string()));
    assert!(tags.contains(&"other".to_string()));
    let before = tags.clone();
    replace_tag_value(&mut tags, &"old".to_string(), &"new".to_string());
    assert_eq!(tags, before);
}

#[test]
fn batches_tell_once() {
    let mut app = app_with(&["a"]);
    let done = |failed: usize| BulkCompletion {
        succeeded: 3 - failed,
        failed,
        total: 3,
        message: "3 messages archived".into(),
        first_error: None,
        notification_key: None,
    };
    assert!(!BulkReply::Single.is_bulk());
    app.report_bulk_completion(BulkReply::Pending);
    assert!(app.effects.is_empty());
    app.report_bulk_completion(BulkReply::Completed { completion: done(0) });
    assert_eq!(app.effects.len(), 1);
    app.report_bulk_completion(BulkReply::Completed { completion: done(1) });
    assert_eq!(app.effects.len(), 2);
}

#[test]
fn words_of_a_provider_are_marked_to_be_shortened() {
    let mut app = app_with(&["a"]);
    app.report_completion(BulkCompletion {
        succeeded: 0,
        failed: 2,
        total: 2,
        message: "2 messages archived".into(),
        first_error: Some("refused".into()),
        notification_key: Some(4),
    });
    let offline = |error: Option<&str>| {
        Evt::Mail(MailEvt::SyncStateChanged { account_id: aid("a"), online: false, error: error.map(str::to_string) })
    };
    assert!(app.handle_event(offline(Some("no route")), false, false, false));
    let notices: Vec<&Notice> = app
        .effects
        .iter()
        .map(|effect| match effect {
            Effect::Toast { notice } => notice,
            other => panic!("expected a notification: {other:?}"),
        })
        .collect();
    assert_eq!(notices[0].detail, Some(Shortened { whole: "refused".into() }));
    assert!(notices[0].stays);
    let reason = Some(Shortened { whole: "no route".into() });
    assert_eq!(notices[1].text, NoticeText::Offline { key: "offline-local-copy", reason });
    assert_eq!((notices.len(), &notices[1].detail), (2, &None));
}

#[test]
fn the_history_is_of_the_sender_on_display() {
    let mut app = app_with(&["a"]);
    app.mailbox.viewer.selected = Some(message("a", "x"));
    app.toggle_sender_history();
    assert!(matches!(&app.sender_history, SenderHistoryState::Loading { email } if email == "contact-a@example.test"));
    app.on_sender_history("someone@example.test".into(), vec![header("a", "z", 1)], None);
    assert!(matches!(&app.sender_history, SenderHistoryState::Loading { .. }));
    app.on_sender_history("contact-a@example.test".into(), vec![header("a", "z", 1)], Some("next".into()));
    assert!(matches!(&app.sender_history, SenderHistoryState::Loaded { messages, .. } if messages.len() == 1));
    app.effects.clear();
    app.load_more_sender_history();
    assert!(matches!(&app.effects[0], Effect::LoadMoreSenderHistory { next_link, .. } if next_link == "next"));
}

#[test]
fn suggestions_wrap_around() {
    let mut app = app_with(&["a"]);
    app.mailbox.search.menu_open = true;
    app.mailbox.search.history = vec!["one".into(), "two".into()];
    let none = Vec::new();
    assert!(app.move_mail_search_selection(true, "", &none));
    assert_eq!(app.selected_mail_search_query("", &none), Some("one".into()));
    assert!(app.move_mail_search_selection(false, "", &none));
    assert_eq!(app.selected_mail_search_query("", &none), Some("two".into()));
    assert!(app.move_mail_search_selection(true, "", &none));
    assert_eq!(app.selected_mail_search_query("", &none), Some("one".into()));
    app.clear_search_history();
    assert!(!app.move_mail_search_selection(true, "", &none));
}

#[test]
fn quick_actions_do_only_what_differs() {
    let app = app_with(&["a"]);
    let mut action = QuickAction::default();
    action.mark_read = Some(true);
    action.move_to_folder_id = Some("f".into());
    let seen = header("a", "x", 1);
    assert!(app.quick_action_steps(&action, &seen, Some("f".into()), None).is_empty());
    let mut unseen = header("a", "x", 1);
    unseen.is_read = false;
    assert_eq!(app.quick_action_steps(&action, &unseen, None, None).len(), 2);
}

#[test]
fn executions_are_told_apart_from_requests() {
    assert!(is_quick_action_execution(execution_of(1)));
    assert!(!is_quick_action_execution(1));
    assert_ne!(execution_of(1), execution_of(2));
    let mut images = vec![InlineImage { cid: "a".into(), bytes: vec![1] }];
    let more = vec![InlineImage { cid: "a".into(), bytes: vec![2] }, InlineImage { cid: "b".into(), bytes: vec![3] }];
    merge_images(&mut images, &more);
    assert_eq!(images.iter().map(|image| image.bytes[0]).collect::<Vec<_>>(), vec![1, 3]);
    assert!(!quick_forward_recipients_valid(&Vec::new()));
    assert!(quick_forward_recipients_valid(&vec!["a@example.test".to_string()]));
}

#[test]
fn cards_move_between_columns_of_one_account() {
    let mut app = app_with(&["a"]);
    let card = header("a", "x", 1);
    let drag = CardDrag { account_id: aid("a"), source_tag_id: "t1".into(), message: card };
    app.drop_kanban_card(&Vec::new(), &drag);
    assert!(app.effects.is_empty());
    let target = |tag: &str| MergedTagTarget { account_id: aid("a"), tag_id: tag.into() };
    app.drop_kanban_card(&vec![target("t1")], &drag);
    assert!(app.effects.is_empty());
    app.drop_kanban_card(&vec![target("t2")], &drag);
    assert!(matches!(
        &app.effects[0],
        Effect::MoveCard { from_tag, to_tag, .. } if from_tag == "t1" && to_tag == "t2"
    ));
}

#[test]
fn notifications_and_the_tray_are_answered() {
    let mut app = app_with(&["a"]);
    app.handle_tray(TrayAction::Show);
    assert!(matches!(app.effects.last(), Some(Effect::ActivateWindow)));
    app.effects.clear();
    let reference = MessageRef { account_id: aid("a"), id: "x".into() };
    app.handle_notification_action(NotificationActionKind::Archive, Some(reference));
    assert!(app.effects.iter().any(|effect| matches!(effect, Effect::Archive { id, .. } if id == "x")));
}

#[test]
fn failures_stop_what_was_loading() {
    let mut app = app_with(&["a"]);
    app.mailbox.pagination.loading_more = true;
    assert!(app.handle_event(Evt::Other(OtherEvt::Failure { error: "offline".into() }), true, false, false));
    assert!(!app.mailbox.pagination.loading_more);
    assert!(matches!(&app.effects[0], Effect::NotifyError { error } if error == "offline"));
}

#[test]
fn answers_are_offered_to_one_editor_after_the_other() {
    let mut app = app_with(&["a"]);
    app.composes = vec![ComposeHandle { id: 4, account_ids: Vec::new() }, ComposeHandle { id: 9, account_ids: Vec::new() }];
    let editors = app.block_editors(Some(20), None);
    assert_eq!(editors, vec![4, 9, 20]);
    assert_eq!(next_editor(&editors, 0, false), Some(4));
    assert_eq!(next_editor(&editors, 1, true), None);
    assert_eq!(next_editor(&editors, 3, false), None);
}
