//! What the panes show and what their buttons, rows and menus ask for.
use crate::folder_pane::{click_target, folder_menu, with_membership, FolderCommand};
use crate::list_pane::{bulk_ask, empty_key, marks_of, refs_of, single_account, BulkButton};
use crate::lists::{first_index, lemma_first_index};
use crate::mail_laws::lemma_kept;
use crate::message_list::GroupRowView;
use crate::message_menu::{MenuCommand, MenuFacts, MenuLineView};
use crate::message_row::RowDateView;
use crate::model::{ContactView, LastAction, MailFolderView, MessageHeaderView, MessageRefView};
use crate::navigation::{flipped, neighbor, neighbor_that_stays, other_conversation, step, ListMovement};
use crate::search_panel::{contact_row, moved_choice};
use crate::folder_tree::LabelView;
use crate::state::{AviaryApp, EffectView, Filing};
use crate::text::trimmed;
use vstd::prelude::*;

verus! {

/// Steps lead where they say: to the row above or below, which at either end is the row
/// itself, and to the first or the last row; without a place to start from to the first.
pub proof fn law_steps_lead_where_they_say(len: int, i: int)
    requires
        0 <= i < len,
    ensures
        step(ListMovement::First, Some(i), len) == 0,
        step(ListMovement::Last, Some(i), len) == len - 1,
        step(ListMovement::First, None, len) == 0,
        step(ListMovement::Last, None, len) == len - 1,
        step(ListMovement::Next, None, len) == 0,
        step(ListMovement::Previous, None, len) == 0,
        i > 0 ==> step(ListMovement::Previous, Some(i), len) == i - 1,
        i == 0 ==> step(ListMovement::Previous, Some(i), len) == 0,
        i < len - 1 ==> step(ListMovement::Next, Some(i), len) == i + 1,
        i == len - 1 ==> step(ListMovement::Next, Some(i), len) == i,
        i < len - 1 ==> neighbor(len, i) == Some(i + 1),
        i == len - 1 && i > 0 ==> neighbor(len, i) == Some(i - 1),
        len == 1 ==> neighbor(len, i) is None,
{
}

/// When several messages go, the next one below that stays is shown, and only where there is
/// none the nearest one above; none is shown that goes.
pub proof fn law_the_next_message_that_stays_is_shown(
    targets: Seq<(usize, MessageHeaderView)>,
    current: int,
    removed: Seq<MessageRefView>,
)
    requires
        0 <= current < targets.len(),
    ensures
        forall|i: int|
            current < i < targets.len() && !removed.contains((#[trigger] targets[i]).1.reference()) && (forall|j: int|
                current < j < i ==> removed.contains((#[trigger] targets[j]).1.reference())) ==> neighbor_that_stays(
                targets,
                current,
                removed,
            ) == Some(targets[i].1),
        (forall|j: int| current < j < targets.len() ==> removed.contains((#[trigger] targets[j]).1.reference()))
            ==> forall|i: int|
            0 <= i < current && !removed.contains((#[trigger] targets[i]).1.reference()) && (forall|j: int|
                i < j < current ==> removed.contains((#[trigger] targets[j]).1.reference())) ==> neighbor_that_stays(
                targets,
                current,
                removed,
            ) == Some(targets[i].1),
        neighbor_that_stays(targets, current, removed) is Some ==> !removed.contains(
            neighbor_that_stays(targets, current, removed)->0.reference(),
        ),
{
    let below = targets.skip(current + 1);
    let above = targets.take(current).reverse();
    let all = below + above;
    let p = crate::navigation::target_stays(removed);
    lemma_first_index(all, p);
    assert forall|i: int|
        current < i < targets.len() && !removed.contains((#[trigger] targets[i]).1.reference()) && (forall|j: int|
            current < j < i ==> removed.contains((#[trigger] targets[j]).1.reference())) implies neighbor_that_stays(
        targets,
        current,
        removed,
    ) == Some(targets[i].1) by {
        let k = i - current - 1;
        assert(all[k] == targets[i]);
        assert forall|j: int| 0 <= j < k implies !p(#[trigger] all[j]) by {
            assert(all[j] == targets[current + 1 + j]);
        }
        crate::lists::lemma_first_index_is(all, p, k);
    }
    if forall|j: int| current < j < targets.len() ==> removed.contains((#[trigger] targets[j]).1.reference()) {
        assert forall|i: int|
            0 <= i < current && !removed.contains((#[trigger] targets[i]).1.reference()) && (forall|j: int|
                i < j < current ==> removed.contains((#[trigger] targets[j]).1.reference())) implies neighbor_that_stays(
            targets,
            current,
            removed,
        ) == Some(targets[i].1) by {
            let k = below.len() + (current - 1 - i);
            assert(above[current - 1 - i] == targets[i]);
            assert(all[k] == targets[i]);
            assert forall|j: int| 0 <= j < k implies !p(#[trigger] all[j]) by {
                if j < below.len() {
                    assert(all[j] == targets[current + 1 + j]);
                } else {
                    assert(all[j] == above[j - below.len()]);
                    assert(all[j] == targets[current - 1 - (j - below.len())]);
                }
            }
            crate::lists::lemma_first_index_is(all, p, k);
        }
    }
}

/// More of the list is asked for only where there is more, nothing is on its way, no search
/// is shown, and the list has grown since; then from where the list ends, for each account
/// that is shown and in the folder that is shown, or for all of them at once.
pub proof fn law_more_is_asked_from_where_the_list_ends(app: AviaryApp)
    ensures
        app.wants_more() <==> app.mailbox.search.results is None && app.mailbox.pagination.has_more
            && !app.mailbox.pagination.loading_more && app.mailbox.pagination.last_request_len != Some(
            app.mailbox.messages.len(),
        ),
        app.unified_pagination() ==> app.more_asks().len() == 1 && app.more_asks()[0] == (EffectView::LoadMoreUnified {
            request_id: app.mailbox.pagination.unified_request_id,
        }),
        !app.unified_pagination() ==> app.more_asks().len() == app.active_accounts().len(),
        !app.unified_pagination() ==> forall|i: int|
            0 <= i < app.active_accounts().len() ==> #[trigger] app.more_asks()[i] == (EffectView::LoadMore {
                account_id: app.active_accounts()[i],
                folder_id: app.mailbox.selected_folder_id.deep_view(),
                skip: app.mailbox.messages.len(),
                limit: app.settings.account_view(app.active_accounts()[i]).fetch_limit,
            }),
{
}

/// The accounts that the list shows: the one that was chosen, or all that are not hidden.
/// The list pages through several at once only where none was chosen.
pub proof fn law_the_list_shows_the_chosen_accounts(app: AviaryApp, id: Seq<char>)
    ensures
        app.mailbox.unified_selected_account is Some ==> (app.relevant(id) <==> id
            == app.mailbox.unified_selected_account.deep_view()->0),
        app.mailbox.unified_selected_account is None ==> (app.relevant(id) <==> (exists|i: int|
            0 <= i < app.accounts.deep_view().len() && (#[trigger] app.accounts.deep_view()[i]).id == id)
            && !app.settings.global.unified_hidden_account_ids.deep_view().contains(id)),
        app.unified_pagination() <==> app.mailbox.unified_selected_account is None && app.active_accounts().len() > 1,
        app.paginates(id) <==> app.active_accounts().len() == 1 && app.active_accounts()[0] == id,
        app.included(id) <==> !app.settings.global.unified_hidden_account_ids.deep_view().contains(id),
{
    let accounts = app.accounts.deep_view();
    let p = app.account_included();
    let shown = accounts.filter(p);
    lemma_kept(accounts, p);
    if app.mailbox.unified_selected_account is Some {
        assert(app.active_accounts()[0] == app.mailbox.unified_selected_account.deep_view()->0);
    } else {
        let ids = app.active_accounts();
        if app.relevant(id) {
            let k = choose|k: int| 0 <= k < ids.len() && ids[k] == id;
            assert(ids[k] == shown[k].id);
            assert(shown.contains(shown[k]));
            let i = choose|i: int| 0 <= i < accounts.len() && accounts[i] == shown[k];
            assert(accounts[i].id == id);
        }
        if (exists|i: int| 0 <= i < accounts.len() && (#[trigger] accounts[i]).id == id) && app.included(id) {
            let i = choose|i: int| 0 <= i < accounts.len() && (#[trigger] accounts[i]).id == id;
            assert(accounts.contains(accounts[i]));
            assert(shown.contains(accounts[i]));
            let k = choose|k: int| 0 <= k < shown.len() && shown[k] == accounts[i];
            assert(ids[k] == id);
        }
    }
    if app.active_accounts().len() == 1 && app.active_accounts()[0] == id {
        assert(app.active_accounts() =~= seq![id]);
    }
}

/// A conversation that is toggled is unfolded if it was folded and folded if it was
/// unfolded; no other is touched.
pub proof fn law_conversations_fold_one_by_one(
    keys: Seq<(Seq<char>, Seq<char>)>,
    key: (Seq<char>, Seq<char>),
    other: (Seq<char>, Seq<char>),
)
    ensures
        flipped(keys, key, other_conversation(key)).contains(key) == !keys.contains(key),
        other != key ==> flipped(keys, key, other_conversation(key)).contains(other) == keys.contains(other),
{
    lemma_kept(keys, other_conversation(key));
    let after = flipped(keys, key, other_conversation(key));
    if !keys.contains(key) {
        assert(after[keys.len() as int] == key);
        if keys.contains(other) {
            let k = choose|k: int| 0 <= k < keys.len() && keys[k] == other;
            assert(after[k] == other);
        }
        if after.contains(other) && other != key {
            let k = choose|k: int| 0 <= k < after.len() && after[k] == other;
            assert(keys[k] == other);
        }
    }
}

/// What the buttons over a selection ask for: each exactly what it says, of exactly the
/// messages that are chosen, in their order.
pub proof fn law_bulk_buttons_do_what_they_say(states: Seq<(MessageRefView, bool, bool)>)
    ensures
        refs_of(states).len() == states.len(),
        forall|i: int| 0 <= i < states.len() ==> #[trigger] refs_of(states)[i] == states[i].0,
        marks_of(states, false).len() == states.len(),
        marks_of(states, true).len() == states.len(),
        forall|i: int|
            0 <= i < states.len() ==> (#[trigger] marks_of(states, false)[i]).reference == states[i].0 && marks_of(
                states,
                false,
            )[i].marked == states[i].1,
        forall|i: int|
            0 <= i < states.len() ==> (#[trigger] marks_of(states, true)[i]).reference == states[i].0 && marks_of(
                states,
                true,
            )[i].marked == states[i].2,
        bulk_ask(BulkButton::MarkRead, states) == seq![
            EffectView::SetReadStates { marks: marks_of(states, false), read: true },
        ],
        bulk_ask(BulkButton::MarkUnread, states) == seq![
            EffectView::SetReadStates { marks: marks_of(states, false), read: false },
        ],
        bulk_ask(BulkButton::Flag, states) == seq![
            EffectView::SetFlags { marks: marks_of(states, true), flagged: true },
        ],
        bulk_ask(BulkButton::Unflag, states) == seq![
            EffectView::SetFlags { marks: marks_of(states, true), flagged: false },
        ],
        bulk_ask(BulkButton::Archive, states) == seq![
            EffectView::FileAll { references: refs_of(states), place: Filing::Archive },
        ],
        bulk_ask(BulkButton::Junk, states) == seq![
            EffectView::FileAll { references: refs_of(states), place: Filing::Junk },
        ],
        bulk_ask(BulkButton::NotJunk, states) == seq![
            EffectView::FileAll { references: refs_of(states), place: Filing::Inbox },
        ],
        bulk_ask(BulkButton::Delete, states) == seq![
            EffectView::FileAll { references: refs_of(states), place: Filing::Bin },
        ],
{
}

/// Whether a state is that of a message that is shown and selected.
pub open spec fn state_of_chosen(app: AviaryApp, state: (MessageRefView, bool, bool)) -> bool {
    exists|x: MessageHeaderView| #[trigger]
        app.filtered().contains(x) && app.mailbox.selection.messages.deep_view().contains(x.reference()) && state == (
            x.reference(),
            x.is_read,
            x.is_flagged,
        )
}

/// A message that is chosen is shown and selected, and brings its own marks.
pub proof fn law_chosen_messages_bring_their_marks(app: AviaryApp)
    ensures
        forall|i: int| 0 <= i < app.chosen().len() ==> state_of_chosen(app, #[trigger] app.chosen()[i]),
{
    let p = AviaryApp::one_of(app.mailbox.selection.messages.deep_view());
    lemma_kept(app.filtered(), p);
    assert forall|i: int| 0 <= i < app.chosen().len() implies state_of_chosen(app, #[trigger] app.chosen()[i]) by {
        let x = app.filtered().filter(p)[i];
        assert(app.filtered().filter(p).contains(x));
        assert(app.filtered().contains(x));
    }
}

/// Messages belong to one account exactly where there are some and none is of another.
pub proof fn law_one_account_is_that_of_all(references: Seq<MessageRefView>, id: Seq<char>)
    ensures
        single_account(references) == Some(id) <==> references.len() > 0 && forall|i: int|
            0 <= i < references.len() ==> (#[trigger] references[i]).account_id == id,
{
    if references.len() > 0 {
        let p = crate::list_pane::of_account(references[0].account_id);
        if references.all(p) {
            assert forall|i: int| 0 <= i < references.len() implies (#[trigger] references[i]).account_id
                == references[0].account_id by {
                assert(p(references[i]));
            }
        }
        if forall|i: int| 0 <= i < references.len() ==> (#[trigger] references[i]).account_id == id {
            assert(references[0].account_id == id);
            assert forall|i: int| 0 <= i < references.len() implies p(#[trigger] references[i]) by {}
        }
    }
}

/// What is said of an empty list names what was asked for: tags before flags, and whether
/// it was searched for.
pub proof fn law_empty_lists_say_why(flagged: bool, searching: bool)
    ensures
        empty_key(true, flagged, searching) == "messages-empty-tags"@,
        empty_key(false, true, true) == "messages-empty-flagged-results"@,
        empty_key(false, true, false) == "messages-empty-flagged"@,
        empty_key(false, false, true) == "messages-empty-results"@,
        empty_key(false, false, false) == "messages-empty"@,
{
}

/// A row shows its message: read, flagged, with its files, its last action and its subject.
/// One that was put off shows until when, any other when it came. A row that heads a
/// conversation is read where nothing of it is unread, and shows how large it is.
pub proof fn law_rows_show_their_message(
    app: AviaryApp,
    header: MessageHeaderView,
    show_account: bool,
    time_only: bool,
    in_mailbox: bool,
    group: Option<GroupRowView>,
)
    ensures
        ({
            let row = app.row(header, show_account, time_only, in_mailbox, group);
            let until = crate::settings::deadline(
                app.settings.account_view(header.account_id).snoozed_messages,
                header.id,
            );
            &&& row.reference.id == header.id && row.reference.account_id == header.account_id
            &&& group is None ==> row.is_read == header.is_read
            &&& group is Some ==> row.is_read == !group->0.has_unread && row.total == Some(group->0.total)
                && row.members == group->0.members && row.expanded == Some(group->0.expanded)
            &&& group is None ==> row.total is None && row.expanded is None && row.members.len() == 0
            &&& row.is_flagged == header.is_flagged
            &&& row.has_attachments == header.has_attachments
            &&& group is None ==> row.is_pinned == app.settings.account_view(
                header.account_id,
            ).pinned_message_ids.contains(header.id)
            &&& group is Some ==> row.is_pinned == group->0.pinned
            &&& row.pin_icon == (if row.is_pinned {
                "pin"@
            } else {
                "pin-off"@
            })
            &&& header.last_action is None ==> row.action_icon is None
            &&& header.last_action == Some(LastAction::Forwarded) ==> row.action_icon == Some("forward"@)
            &&& header.last_action is Some && header.last_action != Some(LastAction::Forwarded) ==> row.action_icon
                == Some("reply"@)
            &&& header.subject.len() > 0 ==> row.subject == LabelView::Text(header.subject)
            &&& header.subject.len() == 0 ==> row.subject == LabelView::Key("no-subject"@)
            &&& until is Some ==> row.date == (RowDateView::Deadline { until: until->0 })
            &&& until is None && time_only ==> row.date == (RowDateView::Time { received: header.received })
            &&& until is None && !time_only ==> row.date == (RowDateView::Day { received: header.received })
            &&& row.tags.len() <= 3 && row.tags.len() <= header.tags.len()
            &&& header.tags.len() <= 3 ==> row.tags.len() == header.tags.len()
            &&& row.account_dot == show_account
            &&& row.bulk_selected ==> row.bulk_active
            &&& row.bulk_active ==> !row.quick_actions
            &&& group is None ==> row.selected == (app.mailbox.viewer.selected_id.deep_view() == Some(header.id))
            &&& group is None && row.bulk_active ==> row.bulk_selected
                == app.mailbox.selection.messages.deep_view().contains(header.reference())
        }),
{
}

/// The pill of a tag goes by the name, the id and the color of the first tag of the account
/// that is stored under its key, and by the key where there is none.
pub proof fn law_pills_name_their_tag(app: AviaryApp, account_id: Seq<char>, key: Seq<char>)
    ensures
        ({
            let tags = app.known_tags(account_id);
            let pill = app.pill(account_id, key);
            let named = app.provider_of(account_id) == crate::model::Provider::Microsoft;
            &&& pill.known ==> exists|i: int|
                0 <= i < tags.len() && pill.tag_id == (#[trigger] tags[i]).id && pill.label == tags[i].display_name
                    && pill.color == tags[i].color && key == (if named {
                    tags[i].display_name
                } else {
                    tags[i].id
                })
            &&& !pill.known ==> pill.label == key && pill.tag_id == key && pill.color is None && forall|i: int|
                0 <= i < tags.len() ==> key != (if named {
                    (#[trigger] tags[i]).display_name
                } else {
                    tags[i].id
                })
            &&& pill.only_filter ==> pill.selected
        }),
{
    let tags = app.known_tags(account_id);
    let p = crate::message_row::stored_as(app.provider_of(account_id), key);
    lemma_first_index(tags, p);
    match first_index(tags, p) {
        Some(i) => {
            assert(p(tags[i]));
            assert(tags[i].id == app.pill(account_id, key).tag_id);
        },
        None => {
            assert forall|i: int| 0 <= i < tags.len() implies !p(#[trigger] tags[i]) by {}
        },
    }
}

/// Whether a menu offers a command.
pub open spec fn offers(lines: Seq<MenuLineView>, command: MenuCommand) -> bool {
    exists|i: int|
        0 <= i < lines.len() && #[trigger] lines[i] is Item && lines[i]->command == command
}

proof fn lemma_offers(front: Seq<MenuLineView>, part: Seq<MenuLineView>, back: Seq<MenuLineView>)
    ensures
        forall|command: MenuCommand| offers(part, command) ==> #[trigger] offers(front + part + back, command),
{
    let all = front + part + back;
    assert forall|command: MenuCommand| offers(part, command) implies #[trigger] offers(all, command) by {
        let i = choose|i: int| 0 <= i < part.len() && #[trigger] part[i] is Item && part[i]->command == command;
        assert(all[front.len() + i] == part[i]);
    }
}

/// Whether all that a part of a menu offers has something to do.
spec fn all_due(facts: MenuFacts, part: Seq<MenuLineView>) -> bool {
    forall|i: int| 0 <= i < part.len() && #[trigger] part[i] is Item ==> due(facts, part[i]->command)
}

proof fn lemma_upper(facts: MenuFacts)
    ensures
        offers(facts.upper(), MenuCommand::Open),
        all_due(facts, facts.upper()),
{
    assert(facts.upper()[0] is Item);
}

proof fn lemma_middle(facts: MenuFacts)
    ensures
        offers(
            facts.middle(),
            if facts.is_pinned {
                MenuCommand::Unpin
            } else {
                MenuCommand::Pin
            },
        ),
        offers(
            facts.middle(),
            if facts.is_read {
                MenuCommand::MarkUnread
            } else {
                MenuCommand::MarkRead
            },
        ),
        offers(
            facts.middle(),
            if facts.snoozed {
                MenuCommand::Unsnooze
            } else {
                MenuCommand::Snooze
            },
        ),
        facts.can_move ==> offers(facts.middle(), MenuCommand::Move),
        all_due(facts, facts.middle()),
{
    let part = facts.middle();
    assert(part[0] is Item && part[1] is Item && part[3] is Item);
    if facts.can_move {
        assert(part[5] is Item);
    }
}

proof fn lemma_lower(facts: MenuFacts)
    ensures
        offers(facts.lower(), MenuCommand::Archive),
        facts.has_junk ==> offers(
            facts.lower(),
            if facts.in_junk {
                MenuCommand::NotJunk
            } else {
                MenuCommand::Junk
            },
        ),
        facts.has_junk ==> offers(
            facts.lower(),
            if facts.sender_blocked {
                MenuCommand::Unblock
            } else {
                MenuCommand::Block
            },
        ),
        offers(facts.lower(), MenuCommand::Delete),
        facts.lower().len() > 0,
        facts.lower().last() is Item,
        facts.lower().last()->command == MenuCommand::Delete,
        all_due(facts, facts.lower()),
{
    let part = facts.lower();
    assert(part[1] is Item);
    if facts.has_junk {
        assert(part[2] is Item && part[3] is Item);
    }
    assert(part[part.len() - 1] is Item);
}

/// The menu of a message offers the opposite of what the message is: to pin or to unpin it,
/// to mark it as read or as unread, to put it off or not; junk is offered where there is a
/// folder for it, moving where there is another folder, and archiving and deleting always.
pub proof fn law_menus_offer_what_can_be_done(facts: MenuFacts)
    ensures
        facts.is_pinned ==> offers(facts.lines(), MenuCommand::Unpin),
        !facts.is_pinned ==> offers(facts.lines(), MenuCommand::Pin),
        facts.is_read ==> offers(facts.lines(), MenuCommand::MarkUnread),
        !facts.is_read ==> offers(facts.lines(), MenuCommand::MarkRead),
        facts.snoozed ==> offers(facts.lines(), MenuCommand::Unsnooze),
        !facts.snoozed ==> offers(facts.lines(), MenuCommand::Snooze),
        facts.can_move ==> offers(facts.lines(), MenuCommand::Move),
        facts.has_junk && facts.in_junk ==> offers(facts.lines(), MenuCommand::NotJunk),
        facts.has_junk && !facts.in_junk ==> offers(facts.lines(), MenuCommand::Junk),
        facts.has_junk && facts.sender_blocked ==> offers(facts.lines(), MenuCommand::Unblock),
        facts.has_junk && !facts.sender_blocked ==> offers(facts.lines(), MenuCommand::Block),
        offers(facts.lines(), MenuCommand::Archive),
        offers(facts.lines(), MenuCommand::Delete),
        offers(facts.lines(), MenuCommand::Open),
        facts.lines().last() is Item && facts.lines().last()->command == MenuCommand::Delete,
        forall|i: int|
            0 <= i < facts.lines().len() && #[trigger] facts.lines()[i] is Item ==> due(facts, facts.lines()[i]->command),
{
    lemma_upper(facts);
    lemma_middle(facts);
    lemma_lower(facts);
    lemma_menu_parts(facts, facts.upper(), facts.middle(), facts.lower());
}

proof fn lemma_menu_parts(facts: MenuFacts, a: Seq<MenuLineView>, b: Seq<MenuLineView>, c: Seq<MenuLineView>)
    requires
        all_due(facts, a),
        all_due(facts, b),
        all_due(facts, c),
        c.len() > 0,
    ensures
        all_due(facts, a + b + c),
        (a + b + c).last() == c.last(),
        forall|command: MenuCommand| #![auto] offers(a, command) ==> offers(a + b + c, command),
        forall|command: MenuCommand| #![auto] offers(b, command) ==> offers(a + b + c, command),
        forall|command: MenuCommand| #![auto] offers(c, command) ==> offers(a + b + c, command),
{
    let none = Seq::<MenuLineView>::empty();
    let all = a + b + c;
    assert((a + b) + c + none =~= all);
    assert(none + a + (b + c) =~= all);
    lemma_offers(none, a, b + c);
    lemma_offers(a, b, c);
    lemma_offers(a + b, c, none);
    assert forall|i: int| 0 <= i < all.len() && #[trigger] all[i] is Item implies due(facts, all[i]->command) by {
        if i < a.len() {
            assert(all[i] == a[i]);
        } else if i < a.len() + b.len() {
            assert(all[i] == b[i - a.len()]);
        } else {
            assert(all[i] == c[i - a.len() - b.len()]);
        }
    }
}

/// Whether a command has something to do.
pub open spec fn due(facts: MenuFacts, command: MenuCommand) -> bool {
    match command {
        MenuCommand::Pin => !facts.is_pinned,
        MenuCommand::Unpin => facts.is_pinned,
        MenuCommand::MarkRead => !facts.is_read,
        MenuCommand::MarkUnread => facts.is_read,
        MenuCommand::Snooze => !facts.snoozed,
        MenuCommand::Unsnooze => facts.snoozed,
        MenuCommand::Move => facts.can_move,
        MenuCommand::Junk => facts.has_junk && !facts.in_junk,
        MenuCommand::NotJunk => facts.has_junk && facts.in_junk,
        MenuCommand::Block => facts.has_junk && !facts.sender_blocked,
        MenuCommand::Unblock => facts.has_junk && facts.sender_blocked,
        MenuCommand::QuickActions => facts.has_quick_actions,
        _ => true,
    }
}

/// The menu goes by the message that it is of, and by its account.
pub proof fn law_menus_go_by_their_message(
    app: AviaryApp,
    header: MessageHeaderView,
    is_read: bool,
    is_pinned: bool,
    members: Seq<MessageRefView>,
)
    requires
        members.len() <= usize::MAX,
    ensures
        ({
            let facts = app.menu_facts(header, is_read, is_pinned, members);
            &&& facts.is_read == is_read && facts.is_pinned == is_pinned
            &&& facts.offline == app.offline_accounts.deep_view().contains(header.account_id)
            &&& members.len() > 1 ==> facts.count is Some && facts.count->0 == members.len()
            &&& members.len() <= 1 ==> facts.count is None
            &&& facts.snoozed == app.is_snoozed(header)
            &&& facts.sender_blocked == crate::settings::is_blocked(
                app.settings.global.blocked_senders.deep_view(),
                header.from,
            )
        }),
{
}

/// A command of the menu asks for what it says, of the message or of every message of the
/// conversation that a folded row stands for.
pub proof fn law_menu_commands_do_what_they_say(
    app: AviaryApp,
    header: MessageHeaderView,
    members: Seq<MessageRefView>,
)
    ensures
        ({
            let r = header.reference();
            let many = members.len() > 1;
            let asks = |command: MenuCommand| app.command_asks(command, header, members);
            &&& asks(MenuCommand::Open) == seq![EffectView::OpenMessage { account_id: header.account_id, id: header.id }]
            &&& many ==> asks(MenuCommand::Archive) == seq![
                EffectView::FileAll { references: members, place: Filing::Archive },
            ]
            &&& many ==> asks(MenuCommand::Junk) == seq![
                EffectView::FileAll { references: members, place: Filing::Junk },
            ]
            &&& many ==> asks(MenuCommand::NotJunk) == seq![
                EffectView::FileAll { references: members, place: Filing::Inbox },
            ]
            &&& many ==> asks(MenuCommand::Delete) == seq![
                EffectView::FileAll { references: members, place: Filing::Bin },
            ]
            &&& !many ==> asks(MenuCommand::Archive) == seq![EffectView::File { reference: r, place: Filing::Archive }]
            &&& !many ==> asks(MenuCommand::Junk) == seq![EffectView::File { reference: r, place: Filing::Junk }]
            &&& !many ==> asks(MenuCommand::NotJunk) == seq![EffectView::File { reference: r, place: Filing::Inbox }]
            &&& !many ==> asks(MenuCommand::Delete) == seq![EffectView::File { reference: r, place: Filing::Bin }]
            &&& !many ==> asks(MenuCommand::MarkRead) == seq![
                EffectView::SetReadState { reference: r, read: true, before: false },
            ]
            &&& !many ==> asks(MenuCommand::MarkUnread) == seq![
                EffectView::SetReadState { reference: r, read: false, before: true },
            ]
            &&& asks(MenuCommand::Unsnooze) == seq![EffectView::Unsnooze { reference: r }]
            &&& asks(MenuCommand::Block) == seq![EffectView::ToggleSenderBlock { sender: header.from }]
            &&& asks(MenuCommand::Unblock) == seq![EffectView::ToggleSenderBlock { sender: header.from }]
        }),
{
}

/// The menu of a folder adds it to the favorites or takes it off, whichever it is not, and
/// lets only folders be renamed or deleted that the provider has no name of its own for;
/// offline nothing is made, renamed or deleted.
pub proof fn law_folder_menus_offer_what_can_be_done(folder: MailFolderView, pinned: bool, offline: bool)
    ensures
        ({
            let menu = folder_menu(folder, pinned, offline);
            &&& pinned ==> menu[0] == (FolderCommand::RemoveFavorite, true)
            &&& !pinned ==> menu[0] == (FolderCommand::AddFavorite, true)
            &&& menu[1].0 == FolderCommand::NewChild
            &&& offline ==> !menu[1].1
            &&& folder.well_known_name is None ==> menu.len() == 4 && menu[1].1 == !offline && menu[2] == (
                FolderCommand::Rename,
                !offline,
            ) && menu[3] == (FolderCommand::Delete, !offline)
            &&& folder.well_known_name is Some ==> menu.len() == 2
        }),
        folder.well_known_name == Some("inbox"@) ==> click_target(folder) is None,
        folder.well_known_name != Some("inbox"@) ==> click_target(folder) == Some(folder.id),
{
}

/// A text is in a list exactly where it is to be, and the others stay.
pub proof fn law_membership_is_set(texts: Seq<Seq<char>>, text: Seq<char>, member: bool, other: Seq<char>)
    ensures
        with_membership(texts, text, member).contains(text) == member,
        other != text ==> with_membership(texts, text, member).contains(other) == texts.contains(other),
{
    lemma_kept(texts, crate::settings::other_text(text));
    let after = with_membership(texts, text, member);
    if member && !texts.contains(text) {
        assert(after[texts.len() as int] == text);
        if texts.contains(other) {
            let k = choose|k: int| 0 <= k < texts.len() && texts[k] == other;
            assert(after[k] == other);
        }
        if other != text && after.contains(other) {
            let k = choose|k: int| 0 <= k < after.len() && after[k] == other;
            assert(texts[k] == other);
        }
    }
}

/// The choice among suggestions moves by one and wraps at both ends; the first step down
/// leads to the first and the first step up to the last.
pub proof fn law_choices_move_by_one(choice: usize, len: int)
    requires
        0 <= choice < len <= usize::MAX,
    ensures
        moved_choice(None, true, len) == 0,
        moved_choice(None, false, len) == len - 1,
        choice + 1 < len ==> moved_choice(Some(choice), true, len) == choice + 1,
        choice + 1 == len ==> moved_choice(Some(choice), true, len) == 0,
        choice > 0 ==> moved_choice(Some(choice), false, len) == choice - 1,
        choice == 0 ==> moved_choice(Some(choice), false, len) == len - 1,
{
    vstd::arithmetic::div_mod::lemma_small_mod(choice as nat, len as nat);
    if choice + 1 < len {
        vstd::arithmetic::div_mod::lemma_small_mod((choice + 1) as nat, len as nat);
    } else {
        vstd::arithmetic::div_mod::lemma_mod_self_0(len);
    }
    if choice > 0 {
        vstd::arithmetic::div_mod::lemma_small_mod((choice - 1) as nat, len as nat);
        vstd::arithmetic::div_mod::lemma_mod_add_multiples_vanish(choice - 1, len);
        assert(choice + len - 1 == len + (choice - 1));
    } else {
        vstd::arithmetic::div_mod::lemma_small_mod((len - 1) as nat, len as nat);
    }
}

/// A suggestion searches for what it shows: the contacts come first, by their addresses, and
/// then earlier searches. A contact without a name goes by its address.
pub proof fn law_suggestions_search_for_what_they_show(
    app: AviaryApp,
    draft: Seq<char>,
    found: Seq<ContactView>,
    i: int,
    contact: ContactView,
    selected: bool,
)
    ensures
        ({
            let suggestions = app.suggestions(draft, found);
            let history = app.mailbox.search.history.deep_view();
            &&& trimmed(draft).len() == 0 ==> suggestions.contacts.len() == 0
            &&& 0 <= i < suggestions.contacts.len() ==> suggestions.query(i) == Some(found[i].email)
            &&& suggestions.contacts.len() <= i < suggestions.contacts.len() + suggestions.history.len()
                ==> suggestions.query(i) == Some(history[i - suggestions.contacts.len()])
            &&& i < 0 || i >= suggestions.contacts.len() + suggestions.history.len() ==> suggestions.query(i) is None
        }),
        trimmed(contact.name).len() > 0 ==> contact_row(contact, selected).label == contact.name,
        trimmed(contact.name).len() == 0 ==> contact_row(contact, selected).label == contact.email,
        contact_row(contact, selected).email == contact.email,
        contact_row(contact, selected).selected == selected,
{
}

} // verus!
