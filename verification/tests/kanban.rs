use aviary::kanban::{normalized_tag_name, AccountBoardState, BoardState, TagColumn};
use aviary::model::{AccountId, MessageHeader, Tag};

fn account_board(tag_id: &str, name: &str, visible: bool) -> AccountBoardState {
    AccountBoardState {
        tags: vec![Tag { id: tag_id.to_string(), display_name: name.to_string(), color: None }],
        columns: visible
            .then_some(TagColumn { tag_id: tag_id.to_string(), messages: Vec::new(), loaded: true, loading: false })
            .into_iter()
            .collect(),
    }
}

fn message(account: &str, id: &str, received: i128) -> MessageHeader {
    MessageHeader {
        id: id.into(),
        account_id: AccountId(account.into()),
        subject: "Subject".into(),
        from: "Contact A <contact-a@example.test>".into(),
        received,
        preview: String::new(),
        is_read: true,
        is_flagged: false,
        has_attachments: false,
        tags: Vec::new(),
        last_action: None,
        last_action_at: None,
        conversation_id: None,
        internet_message_id: None,
    }
}

#[test]
fn same_named_tags_share_one_logical_column() {
    let first = AccountId("first".to_string());
    let second = AccountId("second".to_string());
    let mut board = BoardState::default();
    board.accounts.insert(first.clone(), account_board("tag-a", " Work ", true));
    board.accounts.insert(second.clone(), account_board("tag-b", "work", true));

    let columns = board.merged_columns(&vec![first, second]);

    assert_eq!(columns.len(), 1);
    assert_eq!(columns[0].targets.len(), 2);
}

#[test]
fn adding_a_logical_column_targets_every_matching_account() {
    let first = AccountId("first".to_string());
    let second = AccountId("second".to_string());
    let mut board = BoardState::default();
    board.accounts.insert(first, account_board("tag-a", "Suivi", false));
    board.accounts.insert(second, account_board("tag-b", "SUIVI", false));

    let added = board.add_merged_column("suivi");

    assert_eq!(added.len(), 2);
    assert!(board.accounts.entries.iter().all(|entry| entry.1.columns.len() == 1));
}

#[test]
fn a_name_is_added_once() {
    let first = AccountId("first".to_string());
    let second = AccountId("second".to_string());
    let mut board = BoardState::default();
    board.accounts.insert(first.clone(), account_board("tag-a", "Suivi", false));
    board.accounts.insert(second.clone(), account_board("tag-b", "SUIVI", true));

    assert_eq!(board.add_merged_column("suivi"), vec![(first.clone(), "tag-a".to_string())]);
    let column = &board.account(&first).expect("first").columns[0];
    assert_eq!(column.tag_id, "tag-a");
    assert!(column.messages.is_empty() && !column.loaded && column.loading);
    let kept = &board.account(&second).expect("second").columns;
    assert!(kept.len() == 1 && kept[0].loaded && !kept[0].loading);

    let revision = board.merged_revision;
    assert!(board.add_merged_column("suivi").is_empty());
    assert_eq!(board.merged_revision, revision);
    assert!(board.accounts.entries.iter().all(|entry| entry.1.columns.len() == 1));
    assert!(board.add_merged_column("elsewhere").is_empty());
}

#[test]
fn each_name_that_adds_a_column_counts_as_one_change() {
    let mut board = BoardState::default();
    let mut first = account_board("work-a", "Work", true);
    first.tags.push(Tag { id: "home-a".into(), display_name: "Home".into(), color: None });
    first.columns.push(TagColumn { tag_id: "home-a".into(), messages: Vec::new(), loaded: true, loading: false });
    let mut second = account_board("work-b", "work", false);
    second.tags.push(Tag { id: "home-b".into(), display_name: "HOME".into(), color: None });
    board.accounts.insert(AccountId("first".into()), first);
    board.accounts.insert(AccountId("second".into()), second);

    let revision = board.merged_revision;
    let added = board.merge_matching_columns();
    assert_eq!(added.iter().map(|(_, tag)| tag.as_str()).collect::<Vec<_>>(), vec!["work-b", "home-b"]);
    assert_eq!(board.merged_revision, revision + 2);
    assert!(board.merge_matching_columns().is_empty());
    assert_eq!(board.merged_revision, revision + 2);
}

#[test]
fn available_logical_tag_keeps_a_provider_color() {
    let first = AccountId("first".to_string());
    let second = AccountId("second".to_string());
    let mut first_board = account_board("tag-a", "Work", false);
    first_board.tags[0].color = None;
    let mut second_board = account_board("tag-b", "work", false);
    second_board.tags[0].color = Some(0x12_34_56);
    let mut board = BoardState::default();
    board.accounts.insert(first, first_board);
    board.accounts.insert(second, second_board);

    let available = board.available_tag_names();

    assert_eq!(available.len(), 1);
    assert_eq!(available[0].key, "work");
    assert_eq!(available[0].color, Some(0x12_34_56));
}

#[test]
fn replacing_a_tag_id_keeps_the_visible_column() {
    let account_id = AccountId("account-a".to_string());
    let mut board = BoardState::default();
    board.accounts.insert(account_id.clone(), account_board("tag-old", "Étiquette A", true));

    board.replace_tag_id(&account_id, "tag-old", "tag-new");

    assert_eq!(board.column_ids(&account_id), vec!["tag-new"]);
    assert!(board.account(&account_id).is_some_and(|account| account.columns[0].loaded));
}

#[test]
fn tag_names_are_compared_without_case_and_outer_space() {
    assert_eq!(normalized_tag_name("  WoRK\t"), "work");
    assert_eq!(normalized_tag_name("ÉTIQUETTE"), "étiquette");
}

#[test]
fn cards_of_a_shared_column_come_newest_first() {
    let first = AccountId("first".to_string());
    let second = AccountId("second".to_string());
    let mut board = BoardState::default();
    board.accounts.insert(first.clone(), account_board("tag-a", "Work", true));
    board.accounts.insert(second.clone(), account_board("tag-b", "work", true));
    board.set_column_messages(&first, "tag-a", vec![message("first", "old", 10)]);
    board.set_column_messages(&second, "tag-b", vec![message("second", "new", 20)]);

    let columns = board.merged_columns(&vec![first.clone(), second.clone()]);
    assert_eq!(columns[0].cards.iter().map(|card| card.message.id.as_str()).collect::<Vec<_>>(), vec!["new", "old"]);

    let again = board.merged_columns(&vec![first.clone(), second]);
    assert_eq!(again.len(), 1);
    board.remove_account(&first);
    let left = board.merged_columns(&vec![first]);
    assert!(left.is_empty());
}

#[test]
fn columns_are_added_once_and_removed() {
    let account_id = AccountId("account-a".to_string());
    let mut board = BoardState::default();
    board.ensure_account(&account_id, &vec!["a".to_string()]);
    board.ensure_account(&account_id, &vec!["b".to_string()]);
    assert_eq!(board.column_ids(&account_id), vec!["a"]);
    board.add_column(&account_id, "b");
    board.add_column(&account_id, "b");
    assert_eq!(board.column_ids(&account_id), vec!["a", "b"]);
    board.mark_column_loading(&account_id, "b");
    assert!(board.account(&account_id).is_some_and(|account| account.columns[1].loading));
    board.remove_column(&account_id, "a");
    assert_eq!(board.column_ids(&account_id), vec!["b"]);
    board.reset_account(&account_id, &vec!["c".to_string()]);
    assert_eq!(board.column_ids(&account_id), vec!["c"]);
    assert!(board.account(&AccountId("account-b".to_string())).is_none());
}
