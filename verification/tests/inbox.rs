use aviary::dates::{local_day, utc_day, MAX_DAY, MIN_DAY};
use aviary::folder_tree::{folder_display_label, folder_icon, folder_sort_key, folder_tree, well_known_folder, Label, WellKnownFolder};
use aviary::list_entries::build_list_entries;
use aviary::message_list::{group_message_items, MessageListItem, MsgEntry, MsgEntryVariant, SectionLabel};
use aviary::model::{AccountId, MailFolder, MessageHeader, MessageRef};
use aviary::move_targets::{has_move_folder_targets, move_folder_targets};
use aviary::navigation::neighbor_index_after_removal;
use chrono::{Datelike, TimeZone, Utc};
use std::collections::HashSet;

fn folder(id: &str, parent_id: Option<&str>) -> MailFolder {
    MailFolder {
        id: id.to_string(),
        display_name: id.to_string(),
        parent_id: parent_id.map(str::to_string),
        well_known_name: None,
        total_item_count: 0,
        unread_item_count: 0,
    }
}

fn known(id: &str, name: &str) -> MailFolder {
    MailFolder { well_known_name: Some(name.to_string()), ..folder(id, None) }
}

#[test]
fn tree_keeps_depth_and_hides_collapsed_descendants() {
    let folders = vec![folder("root", None), folder("child", Some("root")), folder("grandchild", Some("child"))];
    let rows = folder_tree(&folders, &vec!["root".to_string(), "child".to_string()]);
    assert_eq!(
        rows.iter().map(|row| (row.folder.id.as_str(), row.depth, row.has_children)).collect::<Vec<_>>(),
        vec![("root", 0, true), ("child", 1, true), ("grandchild", 2, false)]
    );

    let rows = folder_tree(&folders, &vec![]);
    assert_eq!(rows.iter().map(|row| row.folder.id.as_str()).collect::<Vec<_>>(), vec!["root"]);
}

#[test]
fn tree_surfaces_missing_parents_as_roots() {
    let rows = folder_tree(&vec![folder("orphan", Some("missing"))], &vec![]);
    assert_eq!(rows.len(), 1);
    assert_eq!(rows[0].folder.id, "orphan");
    assert_eq!(rows[0].depth, 0);
}

#[test]
fn tree_shows_each_folder_of_a_cycle_once() {
    let folders = vec![folder("a", Some("b")), folder("b", Some("a")), folder("c", None)];
    let rows = folder_tree(&folders, &vec!["a".to_string(), "b".to_string(), "c".to_string()]);
    let mut ids: Vec<&str> = rows.iter().map(|row| row.folder.id.as_str()).collect();
    ids.sort();
    ids.dedup();
    assert_eq!(ids.len(), rows.len());
    assert!(ids.contains(&"c"));
}

#[test]
fn well_known_folders_come_first_and_have_names_of_their_own() {
    let inbox = known("i", "inbox");
    assert_eq!(well_known_folder(&inbox), Some(WellKnownFolder::Inbox));
    assert_eq!(well_known_folder(&folder("x", None)), None);
    let plain = folder("Zeta", None);
    assert!(matches!(folder_display_label(&plain), Label::Text(text) if text == "Zeta"));
    assert!(matches!(folder_display_label(&inbox), Label::Key(_)));
    assert_ne!(folder_icon(&inbox), folder_icon(&plain));
    assert!(folder_sort_key(&inbox) < folder_sort_key(&plain));
    assert_eq!(folder_sort_key(&plain).1, "zeta");

    let folders = vec![plain, inbox];
    let rows = folder_tree(&folders, &vec![]);
    assert_eq!(rows.iter().map(|row| row.folder.id.as_str()).collect::<Vec<_>>(), vec!["i", "Zeta"]);
}

#[test]
fn move_targets_keep_recursive_folder_hierarchy() {
    let folders = vec![
        folder("root", None),
        folder("child", Some("root")),
        folder("grandchild", Some("child")),
        folder("other", None),
    ];

    let targets = move_folder_targets(&folders, None);
    assert_eq!(targets.len(), 2);
    assert_eq!(targets[0].id, "root");
    assert_eq!(targets[0].children[0].id, "child");
    assert_eq!(targets[0].children[0].children[0].id, "grandchild");
    assert_eq!(targets[1].id, "other");
}

#[test]
fn move_targets_promote_children_of_current_folder() {
    let folders = vec![folder("root", None), folder("child", Some("root")), folder("grandchild", Some("child"))];

    let current = "root".to_string();
    let targets = move_folder_targets(&folders, Some(&current));
    assert_eq!(targets.len(), 1);
    assert_eq!(targets[0].id, "child");
    assert_eq!(targets[0].children[0].id, "grandchild");
}

#[test]
fn a_lone_folder_leaves_nowhere_to_move_to() {
    let current = "root".to_string();
    let folders = vec![folder("root", None)];
    assert!(move_folder_targets(&folders, Some(&current)).is_empty());
    assert!(!has_move_folder_targets(&folders, Some(&current)));
    assert!(has_move_folder_targets(&folders, None));
}

#[test]
fn deletion_selects_next_then_previous_at_end_of_list() {
    assert_eq!(neighbor_index_after_removal(3, 0), Some(1));
    assert_eq!(neighbor_index_after_removal(3, 1), Some(2));
    assert_eq!(neighbor_index_after_removal(3, 2), Some(1));
    assert_eq!(neighbor_index_after_removal(1, 0), None);
}

fn threaded_pair() -> (MessageHeader, MessageHeader) {
    (
        message("account-a", "thread-new", Some("conversation-1"), 40),
        message("account-a", "thread-old", Some("conversation-1"), 30),
    )
}

fn message(account: &str, id: &str, conversation: Option<&str>, minute: u32) -> MessageHeader {
    let received = Utc.with_ymd_and_hms(2026, 3, 15, 12, minute, 0).single().expect("fixed timestamp");
    MessageHeader {
        id: id.into(),
        account_id: AccountId(account.into()),
        subject: "Contrat".into(),
        from: "Contact A <contact-a@example.test>".into(),
        received: received.timestamp() as i128 * 1_000_000_000,
        preview: String::new(),
        is_read: true,
        is_flagged: false,
        has_attachments: false,
        tags: Vec::new(),
        last_action: None,
        last_action_at: None,
        conversation_id: conversation.map(str::to_string),
        internet_message_id: None,
    }
}

fn group(messages: &[MessageHeader]) -> Vec<MessageListItem<'_>> {
    let headers: Vec<&MessageHeader> = messages.iter().collect();
    group_message_items(&headers, &Vec::new(), &Vec::new(), &Vec::new())
}

fn ids(items: &[MessageListItem<'_>]) -> Vec<Vec<String>> {
    items
        .iter()
        .map(|item| match item {
            MessageListItem::Single(message) => vec![message.id.clone()],
            MessageListItem::Group { members, .. } => members.iter().map(|member| member.id.clone()).collect(),
        })
        .collect()
}

#[test]
fn a_thread_takes_the_place_of_its_newest_message() {
    let messages = [
        message("account-a", "loose-1", None, 50),
        message("account-a", "thread-new", Some("conversation-1"), 40),
        message("account-a", "loose-2", None, 30),
        message("account-a", "thread-old", Some("conversation-1"), 20),
    ];

    assert_eq!(
        ids(&group(&messages)),
        vec![
            vec!["loose-1".to_string()],
            vec!["thread-new".to_string(), "thread-old".to_string()],
            vec!["loose-2".to_string()],
        ]
    );
}

#[test]
fn a_lone_message_stays_an_ordinary_row() {
    let messages =
        [message("account-a", "alone", Some("conversation-1"), 40), message("account-a", "no-thread", None, 30)];

    let items = group(&messages);
    assert!(items.iter().all(|item| matches!(item, MessageListItem::Single(_))));
}

#[test]
fn identical_thread_ids_from_two_accounts_do_not_merge() {
    let messages = [
        message("account-a", "a-1", Some("conversation-1"), 40),
        message("account-b", "b-1", Some("conversation-1"), 30),
    ];

    let items = group(&messages);
    assert_eq!(items.len(), 2);
    assert!(items.iter().all(|item| matches!(item, MessageListItem::Single(_))));
}

#[test]
fn the_counter_prefers_the_cache_without_ever_undercounting() {
    let messages = [
        message("account-a", "thread-new", Some("conversation-1"), 40),
        message("account-a", "thread-old", Some("conversation-1"), 30),
    ];
    let headers: Vec<&MessageHeader> = messages.iter().collect();
    let key = (AccountId("account-a".into()), "conversation-1".to_string());

    let totals = vec![((AccountId("account-a".into()), "conversation-1".to_string()), 12)];
    let items = group_message_items(&headers, &Vec::new(), &totals, &Vec::new());
    let MessageListItem::Group { row, .. } = &items[0] else {
        panic!("expected a group");
    };
    assert_eq!(row.total, 12);

    let totals = vec![(key, 1)];
    let items = group_message_items(&headers, &Vec::new(), &totals, &Vec::new());
    let MessageListItem::Group { row, .. } = &items[0] else {
        panic!("expected a group");
    };
    assert_eq!(row.total, 2);
}

#[test]
fn unread_and_pinned_propagate_from_any_member() {
    let mut messages = [
        message("account-a", "thread-new", Some("conversation-1"), 40),
        message("account-a", "thread-old", Some("conversation-1"), 30),
    ];
    messages[1].is_read = false;
    let headers: Vec<&MessageHeader> = messages.iter().collect();
    let pinned = vec![messages[1].reference()];

    let items = group_message_items(&headers, &Vec::new(), &Vec::new(), &pinned);
    let MessageListItem::Group { row, .. } = &items[0] else {
        panic!("expected a group");
    };
    assert!(row.has_unread, "an unread reply marks the whole thread");
    assert!(row.pinned, "a pinned member pins the whole thread");
}

fn entries_with(messages: &[MessageHeader], expanded: bool, pins: &Vec<MessageRef>) -> Vec<MsgEntry> {
    let headers: Vec<&MessageHeader> = messages.iter().collect();
    let expanded: Vec<(AccountId, String)> = if expanded {
        headers.iter().filter_map(|header| Some((header.account_id.clone(), header.conversation_id.clone()?))).collect()
    } else {
        Vec::new()
    };
    let items = group_message_items(&headers, &expanded, &Vec::new(), pins);
    let days: Vec<i32> = items.iter().map(|item| local_day(item.representative().received)).collect();
    build_list_entries(&items, &days, &Vec::new(), pins)
}

fn entries(messages: &[MessageHeader], expanded: bool) -> Vec<MsgEntry> {
    entries_with(messages, expanded, &Vec::new())
}

fn rendered_references(entries: &[MsgEntry]) -> Vec<MessageRef> {
    entries
        .iter()
        .filter_map(|entry| match entry {
            MsgEntry::Header { .. } => None,
            MsgEntry::Row { reference, .. } | MsgEntry::Group { reference, .. } => Some(reference.clone()),
        })
        .collect()
}

#[test]
fn an_expanded_group_never_renders_its_newest_message_twice() {
    let messages = [threaded_pair().0, threaded_pair().1, message("account-a", "loose", None, 10)];

    for expanded in [false, true] {
        let entries = entries(&messages, expanded);
        let references = rendered_references(&entries);
        let unique: HashSet<(&str, &str)> =
            references.iter().map(|reference| (reference.account_id.0.as_str(), reference.id.as_str())).collect();
        assert_eq!(references.len(), unique.len(), "duplicate row while expanded={expanded}: {references:?}");
    }
}

#[test]
fn expanding_adds_exactly_the_older_members() {
    let messages = [threaded_pair().0, threaded_pair().1];

    let collapsed = rendered_references(&entries(&messages, false));
    let expanded = rendered_references(&entries(&messages, true));

    assert_eq!(collapsed.len(), 1, "a collapsed thread is one row");
    assert_eq!(expanded.len(), 2, "expanding reveals the older message");
    assert_eq!(expanded[0].id, "thread-new");
    assert_eq!(expanded[1].id, "thread-old");
}

#[test]
fn older_members_follow_their_conversation_in_order() {
    let messages = [
        message("account-a", "new", Some("conversation-1"), 50),
        message("account-a", "between", None, 45),
        message("account-a", "middle", Some("conversation-1"), 40),
        message("account-a", "old", Some("conversation-1"), 30),
        message("account-a", "folded-new", Some("conversation-2"), 20),
        message("account-a", "folded-old", Some("conversation-2"), 10),
    ];
    let headers: Vec<&MessageHeader> = messages.iter().collect();
    let expanded = vec![(AccountId("account-a".into()), "conversation-1".to_string())];
    let items = group_message_items(&headers, &expanded, &Vec::new(), &Vec::new());
    let days = vec![739_325, 739_325, 739_325];
    let entries = build_list_entries(&items, &days, &Vec::new(), &Vec::new());
    let names: Vec<String> = rendered_references(&entries).into_iter().map(|reference| reference.id).collect();
    assert_eq!(names, vec!["new", "middle", "old", "between", "folded-new"]);
    assert!(matches!(&entries[1], MsgEntry::Group { group, .. } if group.expanded));
    assert!(matches!(entries[2], MsgEntry::Row { in_group: true, .. }));
    assert!(matches!(entries[3], MsgEntry::Row { in_group: true, .. }));
    assert!(matches!(entries[4], MsgEntry::Row { in_group: false, .. }));
    assert!(matches!(&entries[5], MsgEntry::Group { group, .. } if !group.expanded));
}

#[test]
fn pinned_messages_stand_in_a_framed_section_of_their_own() {
    let messages = [message("account-a", "first", None, 40), message("account-a", "second", None, 30)];
    let pins = vec![messages[1].reference()];
    let entries = entries_with(&messages, false, &pins);
    assert_eq!(entries.len(), 4);
    let MsgEntry::Header { key, label, count, pinned, collapsed } = &entries[0] else {
        panic!("expected a section");
    };
    assert_eq!((key.as_str(), *count, *pinned, *collapsed), ("pinned", 1, true, false));
    assert_eq!(*label, SectionLabel::Pinned);
    assert_eq!(entries[1].variant(), MsgEntryVariant::Row { pinned: true, section_end: true, in_group: false });
    assert_eq!(entries[3].variant(), MsgEntryVariant::Row { pinned: false, section_end: true, in_group: false });
    assert_eq!(rendered_references(&entries)[0].id, "second");
}

#[test]
fn a_folded_section_keeps_its_title_and_its_count() {
    let messages = [message("account-a", "first", None, 40), message("account-a", "second", None, 30)];
    let headers: Vec<&MessageHeader> = messages.iter().collect();
    let items = group_message_items(&headers, &Vec::new(), &Vec::new(), &Vec::new());
    let days = vec![739_325, 739_325];
    let open = build_list_entries(&items, &days, &Vec::new(), &Vec::new());
    let MsgEntry::Header { key, .. } = &open[0] else {
        panic!("expected a section");
    };
    assert_eq!(key, "day:2025-03-15");
    let folded = build_list_entries(&items, &days, &vec![key.clone()], &Vec::new());
    assert_eq!(folded.len(), 1);
    let MsgEntry::Header { count, collapsed, .. } = &folded[0] else {
        panic!("expected a section");
    };
    assert_eq!((*count, *collapsed), (2, true));
}

#[test]
fn days_are_those_of_the_calendar() {
    assert_eq!(MIN_DAY, chrono::NaiveDate::MIN.num_days_from_ce());
    assert_eq!(MAX_DAY, chrono::NaiveDate::MAX.num_days_from_ce());
    let noon = Utc.with_ymd_and_hms(2026, 3, 15, 12, 0, 0).single().expect("fixed timestamp");
    let instant = noon.timestamp() as i128 * 1_000_000_000;
    assert_eq!(utc_day(instant), noon.date_naive().num_days_from_ce());
    assert_eq!(utc_day(-1), chrono::NaiveDate::from_ymd_opt(1969, 12, 31).expect("date").num_days_from_ce());
    let local = noon.with_timezone(&chrono::Local).date_naive().num_days_from_ce();
    assert_eq!(local_day(instant), local);
}
