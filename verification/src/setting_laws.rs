//! What settings and small readings mean: languages, delays, addresses, deadlines,
//! conversations in one row, and the log.
use crate::lists::{first_index, lemma_first_index, lemma_first_index_is};
use crate::logs_view::{filter_buttons, label_key, pane_of, shown, LevelLabelsView, LogEntryView, LogFilter, LogLevel};
use crate::mail_laws::lemma_kept;
use crate::message_list::{group_row, members_of};
use crate::model::{AccountId, MessageHeaderView, MessageRefView};
use crate::settings::{
    closes, detected_language, due_of, due_of_account, email_of, is_due, is_waiting, lang_id, last_bracket,
    names_language, without_due, AccountSettings, AccountSettingsView, GlobalSettings, LanguageChoice,
    QuickActionView, SnoozedMessageView,
};
use crate::text::trimmed;
use vstd::prelude::*;

verus! {

/// Whether a locale begins with two letters, in either case.
pub open spec fn begins_with_letters(locale: Seq<char>, a: char, upper_a: char, b: char, upper_b: char) -> bool {
    locale.len() >= 2 && (locale[0] == a || locale[0] == upper_a) && (locale[1] == b || locale[1] == upper_b)
}

/// The language is that of the first candidate that names one of the two that there are,
/// without regard to case; where none does it is English.
pub proof fn law_the_first_known_language_counts(candidates: Seq<Seq<char>>)
    ensures
        ({
            let french = |locale: Seq<char>| begins_with_letters(locale, 'f', 'F', 'r', 'R');
            let english = |locale: Seq<char>| begins_with_letters(locale, 'e', 'E', 'n', 'N');
            &&& forall|i: int|
                0 <= i < candidates.len() && french(#[trigger] candidates[i]) && (forall|j: int|
                    0 <= j < i ==> !french(#[trigger] candidates[j]) && !english(candidates[j])) ==> detected_language(
                    candidates,
                ) == LanguageChoice::French
            &&& forall|i: int|
                0 <= i < candidates.len() && english(#[trigger] candidates[i]) && (forall|j: int|
                    0 <= j < i ==> !french(#[trigger] candidates[j]) && !english(candidates[j])) ==> detected_language(
                    candidates,
                ) == LanguageChoice::English
            &&& (forall|i: int| 0 <= i < candidates.len() ==> !french(#[trigger] candidates[i]) && !english(candidates[i]))
                ==> detected_language(candidates) == LanguageChoice::English
        }),
        lang_id(LanguageChoice::French) == "fr"@,
        lang_id(LanguageChoice::English) == "en"@,
{
    let french = |locale: Seq<char>| begins_with_letters(locale, 'f', 'F', 'r', 'R');
    let english = |locale: Seq<char>| begins_with_letters(locale, 'e', 'E', 'n', 'N');
    let p = names_language();
    lemma_first_index(candidates, p);
    assert(forall|locale: Seq<char>| #[trigger] p(locale) <==> french(locale) || english(locale));
    assert forall|i: int|
        0 <= i < candidates.len() && french(#[trigger] candidates[i]) && (forall|j: int|
            0 <= j < i ==> !french(#[trigger] candidates[j]) && !english(candidates[j])) implies detected_language(
        candidates,
    ) == LanguageChoice::French by {
        assert(p(candidates[i]));
        lemma_first_index_is(candidates, p, i);
    }
    assert forall|i: int|
        0 <= i < candidates.len() && english(#[trigger] candidates[i]) && (forall|j: int|
            0 <= j < i ==> !french(#[trigger] candidates[j]) && !english(candidates[j])) implies detected_language(
        candidates,
    ) == LanguageChoice::English by {
        assert(p(candidates[i]));
        lemma_first_index_is(candidates, p, i);
    }
    if forall|i: int| 0 <= i < candidates.len() ==> !french(#[trigger] candidates[i]) && !english(candidates[i]) {
        match first_index(candidates, p) {
            Some(i) => {
                assert(p(candidates[i]));
            },
            None => {},
        }
    }
}

/// Actions wait only where that is asked for: then for the seconds that were chosen, but at
/// least one and at most three hundred.
pub proof fn law_actions_wait_within_bounds(settings: GlobalSettings)
    ensures
        !settings.action_delay_enabled ==> settings.action_delay() == 0,
        settings.action_delay_enabled ==> 1 <= settings.action_delay() <= 300,
        settings.action_delay_enabled && 1 <= settings.action_delay_secs <= 300 ==> settings.action_delay()
            == settings.action_delay_secs,
        settings.action_delay_enabled && settings.action_delay_secs == 0 ==> settings.action_delay() == 1,
        settings.action_delay_enabled && settings.action_delay_secs > 300 ==> settings.action_delay() == 300,
{
}

proof fn lemma_last_bracket(text: Seq<char>)
    ensures
        match last_bracket(text) {
            Some(i) => 0 <= i < text.len() && text[i] == '<' && forall|j: int|
                i < j < text.len() ==> #[trigger] text[j] != '<',
            None => forall|j: int| 0 <= j < text.len() ==> #[trigger] text[j] != '<',
        },
    decreases text.len(),
{
    if text.len() > 0 && text.last() != '<' {
        let front = text.drop_last();
        lemma_last_bracket(front);
        assert forall|j: int| 0 <= j < front.len() implies front[j] == #[trigger] text[j] by {}
    }
}

/// The address of a sender stands between angle brackets behind the name, or is all there
/// is; blanks around it do not count, and what holds no `@` is no address.
pub proof fn law_addresses_stand_in_brackets(from: Seq<char>, name: Seq<char>, address: Seq<char>, rest: Seq<char>)
    requires
        forall|i: int| 0 <= i < from.len() ==> #[trigger] from[i] != '<',
        forall|i: int| 0 <= i < address.len() ==> #[trigger] address[i] != '<' && address[i] != '>',
        forall|i: int| 0 <= i < rest.len() ==> #[trigger] rest[i] != '<',
    ensures
        trimmed(from).contains('@') ==> email_of(from) == Some(trimmed(from)),
        !trimmed(from).contains('@') ==> email_of(from) is None,
        trimmed(address).contains('@') ==> email_of(name + seq!['<'] + address + seq!['>'] + rest) == Some(
            trimmed(address),
        ),
        !trimmed(address).contains('@') ==> email_of(name + seq!['<'] + address + seq!['>'] + rest) is None,
{
    lemma_last_bracket(from);
    let whole = name + seq!['<'] + address + seq!['>'] + rest;
    lemma_last_bracket(whole);
    let open = name.len() as int;
    assert(whole[open] == '<');
    assert forall|j: int| open < j < whole.len() implies #[trigger] whole[j] != '<' by {
        if j < open + 1 + address.len() {
            assert(whole[j] == address[j - open - 1]);
        } else if j > open + 1 + address.len() {
            assert(whole[j] == rest[j - open - 2 - address.len()]);
        }
    }
    assert(last_bracket(whole) == Some(open));
    let tail = whole.skip(open + 1);
    let n = address.len() as int;
    assert(tail[n] == '>');
    assert forall|j: int| 0 <= j < n implies !closes()(#[trigger] tail[j]) by {
        assert(tail[j] == address[j]);
    }
    lemma_first_index_is(tail, closes(), n);
    assert(whole.subrange(open + 1, open + 1 + n) =~= address);
}

/// Whether a message waits in the settings of some account for an instant that has come.
pub open spec fn comes_due(
    entries: Seq<(AccountId, AccountSettings)>,
    account: Seq<char>,
    id: Seq<char>,
    now: i128,
) -> bool {
    exists|i: int, k: int|
        0 <= i < entries.len() && 0 <= k < (#[trigger] entries[i]).1.snoozed_messages.deep_view().len()
            && entries[i].0.0@ == account && (#[trigger] entries[i].1.snoozed_messages.deep_view()[k]).id == id
            && entries[i].1.snoozed_messages.deep_view()[k].until <= now
}

proof fn lemma_due_of_account(account: Seq<char>, list: Seq<SnoozedMessageView>, now: i128)
    ensures
        forall|id: Seq<char>| #[trigger]
            due_of_account(account, list, now).contains((account, id)) <==> exists|k: int|
                0 <= k < list.len() && (#[trigger] list[k]).id == id && list[k].until <= now,
        forall|i: int| 0 <= i < due_of_account(account, list, now).len() ==> (#[trigger] due_of_account(account, list, now)[i]).0
            == account,
{
    let due = due_of_account(account, list, now);
    let kept = list.filter(is_due(now));
    lemma_kept(list, is_due(now));
    assert forall|id: Seq<char>| #[trigger] due.contains((account, id)) <==> exists|k: int|
        0 <= k < list.len() && (#[trigger] list[k]).id == id && list[k].until <= now by {
        if due.contains((account, id)) {
            let i = choose|i: int| 0 <= i < due.len() && due[i] == (account, id);
            assert(kept.contains(kept[i]));
            let k = choose|k: int| 0 <= k < list.len() && list[k] == kept[i];
            assert(list[k].id == id);
        }
        if exists|k: int| 0 <= k < list.len() && (#[trigger] list[k]).id == id && list[k].until <= now {
            let k = choose|k: int| 0 <= k < list.len() && (#[trigger] list[k]).id == id && list[k].until <= now;
            assert(list.contains(list[k]));
            assert(kept.contains(list[k]));
            let i = choose|i: int| 0 <= i < kept.len() && kept[i] == list[k];
            assert(due[i] == (account, id));
        }
    }
}

/// The messages that come back are exactly those whose instant has come, each with its
/// account.
pub proof fn law_messages_come_back_when_due(entries: Seq<(AccountId, AccountSettings)>, now: i128)
    ensures
        forall|account: Seq<char>, id: Seq<char>| #[trigger]
            due_of(entries, now).contains((account, id)) <==> comes_due(entries, account, id, now),
    decreases entries.len(),
{
    let all = due_of(entries, now);
    if entries.len() > 0 {
        let init = entries.drop_last();
        let last = entries.last();
        let list = last.1.snoozed_messages.deep_view();
        let front = due_of(init, now);
        let own = due_of_account(last.0.0@, list, now);
        law_messages_come_back_when_due(init, now);
        lemma_due_of_account(last.0.0@, list, now);
        assert(all == front + own);
        assert forall|account: Seq<char>, id: Seq<char>| #[trigger] all.contains((account, id)) <==> comes_due(
            entries,
            account,
            id,
            now,
        ) by {
            if all.contains((account, id)) {
                let i = choose|i: int| 0 <= i < all.len() && all[i] == (account, id);
                if i < front.len() {
                    assert(front[i] == (account, id));
                    assert(front.contains((account, id)));
                    let (a, k) = choose|a: int, k: int|
                        0 <= a < init.len() && 0 <= k < (#[trigger] init[a]).1.snoozed_messages.deep_view().len()
                            && init[a].0.0@ == account && (#[trigger] init[a].1.snoozed_messages.deep_view()[k]).id == id
                            && init[a].1.snoozed_messages.deep_view()[k].until <= now;
                    assert(entries[a] == init[a]);
                    assert(entries[a].1.snoozed_messages.deep_view()[k].id == id);
                } else {
                    assert(own[i - front.len()] == (account, id));
                    assert(own[i - front.len()].0 == last.0.0@);
                    assert(own.contains((account, id)));
                    let k = choose|k: int|
                        0 <= k < list.len() && (#[trigger] list[k]).id == id && list[k].until <= now;
                    assert(entries[entries.len() - 1] == last);
                    assert(entries[entries.len() - 1].1.snoozed_messages.deep_view()[k].id == id);
                }
            }
            if comes_due(entries, account, id, now) {
                let (a, k) = choose|a: int, k: int|
                    0 <= a < entries.len() && 0 <= k < (#[trigger] entries[a]).1.snoozed_messages.deep_view().len()
                        && entries[a].0.0@ == account && (#[trigger] entries[a].1.snoozed_messages.deep_view()[k]).id
                        == id && entries[a].1.snoozed_messages.deep_view()[k].until <= now;
                if a < init.len() {
                    assert(init[a] == entries[a]);
                    assert(init[a].1.snoozed_messages.deep_view()[k].id == id);
                    assert(comes_due(init, account, id, now));
                    assert(front.contains((account, id)));
                    let i = choose|i: int| 0 <= i < front.len() && front[i] == (account, id);
                    assert(all[i] == (account, id));
                } else {
                    assert(list[k].id == id);
                    assert(own.contains((account, id)));
                    let i = choose|i: int| 0 <= i < own.len() && own[i] == (account, id);
                    assert(all[front.len() + i] == (account, id));
                }
            }
        }
    } else {
        assert forall|account: Seq<char>, id: Seq<char>| #[trigger] all.contains((account, id)) <==> comes_due(
            entries,
            account,
            id,
            now,
        ) by {}
    }
}

/// What is not due yet goes on to wait, and what was due waits no longer.
pub proof fn law_what_is_not_due_waits_on(account: AccountSettingsView, now: i128)
    ensures
        forall|x: SnoozedMessageView| #[trigger]
            without_due(account, now).snoozed_messages.contains(x) <==> account.snoozed_messages.contains(x) && x.until
                > now,
        without_due(account, now) == (AccountSettingsView {
            snoozed_messages: without_due(account, now).snoozed_messages,
            ..account
        }),
{
    lemma_kept(account.snoozed_messages, is_waiting(now));
}

/// A quick action does something exactly where one of its steps is set, and is sound where
/// it sends at most once and adds no tag that it takes off.
pub proof fn law_quick_actions_have_steps(action: QuickActionView)
    ensures
        !action.has_steps() <==> action.forward is None && action.reply is None && action.add_tags.len() == 0
            && action.remove_tags.len() == 0 && action.mark_read is None && action.set_flagged is None
            && action.move_to_folder_id is None,
        action.sends_at_most_once() <==> !(action.forward is Some && action.reply is Some),
        action.targets_are_disjoint() <==> forall|tag: Seq<char>|
            !(#[trigger] action.add_tags.contains(tag) && action.remove_tags.contains(tag)),
{
    if action.targets_are_disjoint() {
        assert forall|tag: Seq<char>| !(#[trigger] action.add_tags.contains(tag) && action.remove_tags.contains(tag)) by {
            if action.add_tags.contains(tag) && action.remove_tags.contains(tag) {
                let i = choose|i: int| 0 <= i < action.add_tags.len() && action.add_tags[i] == tag;
                let j = choose|j: int| 0 <= j < action.remove_tags.len() && action.remove_tags[j] == tag;
                assert(action.add_tags[i] != action.remove_tags[j]);
            }
        }
    }
    if forall|tag: Seq<char>| !(#[trigger] action.add_tags.contains(tag) && action.remove_tags.contains(tag)) {
        assert forall|i: int, j: int|
            #![trigger action.add_tags[i], action.remove_tags[j]]
            0 <= i < action.add_tags.len() && 0 <= j < action.remove_tags.len() implies action.add_tags[i]
            != action.remove_tags[j] by {
            assert(action.add_tags.contains(action.add_tags[i]));
            assert(action.remove_tags.contains(action.remove_tags[j]));
        }
    }
}

/// The row of a conversation sums its messages up: it is unread where one of them is, pinned
/// where one of them is, unfolded where the user unfolded it, and as large as is known but
/// never smaller than what is loaded. It names its messages in their order.
pub proof fn law_conversation_rows_sum_up(
    members: Seq<MessageHeaderView>,
    key: (Seq<char>, Seq<char>),
    expanded: Seq<(Seq<char>, Seq<char>)>,
    totals: Seq<((Seq<char>, Seq<char>), usize)>,
    pinned: Seq<MessageRefView>,
)
    requires
        members.len() <= usize::MAX,
    ensures
        ({
            let row = group_row(members, key, expanded, totals, pinned);
            &&& row.key == key
            &&& row.has_unread <==> exists|i: int| 0 <= i < members.len() && !(#[trigger] members[i]).is_read
            &&& row.pinned <==> exists|i: int|
                0 <= i < members.len() && pinned.contains((#[trigger] members[i]).reference())
            &&& row.expanded <==> expanded.contains(key)
            &&& row.total >= members.len()
            &&& forall|k: int|
                0 <= k < totals.len() && (#[trigger] totals[k]).0 == key && (forall|j: int|
                    0 <= j < k ==> (#[trigger] totals[j]).0 != key) ==> row.total == (if totals[k].1 >= members.len() {
                    totals[k].1 as int
                } else {
                    members.len() as int
                })
            &&& (forall|k: int| 0 <= k < totals.len() ==> (#[trigger] totals[k]).0 != key) ==> row.total
                == members.len()
            &&& row.members.len() == members.len()
            &&& forall|i: int|
                0 <= i < members.len() ==> (#[trigger] row.members[i]).id == members[i].id && row.members[i].account_id
                    == members[i].account_id
        }),
{
    let row = group_row(members, key, expanded, totals, pinned);
    let unread = crate::message_list::is_unread();
    let pin = crate::message_list::is_pinned(pinned);
    let p = crate::message_list::total_for(key);
    lemma_first_index(totals, p);
    if members.any(unread) {
        let i = choose|i: int| 0 <= i < members.len() && unread(#[trigger] members[i]);
        assert(!members[i].is_read);
    }
    if exists|i: int| 0 <= i < members.len() && !(#[trigger] members[i]).is_read {
        let i = choose|i: int| 0 <= i < members.len() && !(#[trigger] members[i]).is_read;
        assert(unread(members[i]));
    }
    if members.any(pin) {
        let i = choose|i: int| 0 <= i < members.len() && pin(#[trigger] members[i]);
        assert(pinned.contains(members[i].reference()));
    }
    if exists|i: int| 0 <= i < members.len() && pinned.contains((#[trigger] members[i]).reference()) {
        let i = choose|i: int| 0 <= i < members.len() && pinned.contains((#[trigger] members[i]).reference());
        assert(pin(members[i]));
    }
    assert forall|k: int|
        0 <= k < totals.len() && (#[trigger] totals[k]).0 == key && (forall|j: int|
            0 <= j < k ==> (#[trigger] totals[j]).0 != key) implies row.total == (if totals[k].1 >= members.len() {
        totals[k].1 as int
    } else {
        members.len() as int
    }) by {
        assert(p(totals[k]));
        lemma_first_index_is(totals, p, k);
    }
    if forall|k: int| 0 <= k < totals.len() ==> (#[trigger] totals[k]).0 != key {
        match first_index(totals, p) {
            Some(k) => {
                assert(p(totals[k]));
            },
            None => {},
        }
    }
}

/// A conversation holds exactly the loaded messages of its account and thread.
pub proof fn law_members_are_of_the_conversation(headers: Seq<MessageHeaderView>, key: (Seq<char>, Seq<char>))
    ensures
        forall|x: MessageHeaderView| #[trigger]
            members_of(headers, key).contains(x) <==> headers.contains(x) && x.account_id == key.0
                && x.conversation_id == Some(key.1),
{
    lemma_kept(headers, crate::message_list::in_conversation(key));
}

/// The log shows exactly the entries that are severe enough for the filter, the newest
/// first; the button of the filter is the one that is pressed.
pub proof fn law_the_log_shows_what_is_severe_enough(
    entries: Seq<LogEntryView>,
    labels: LevelLabelsView,
    filter: LogFilter,
)
    requires
        entries.len() <= usize::MAX,
    ensures
        ({
            let pane = pane_of(entries, labels, filter);
            let seen = shown(entries, filter);
            &&& pane.rows.len() == seen.len()
            &&& forall|i: int|
                0 <= i < seen.len() ==> (#[trigger] pane.rows[i]).entry == seen[seen.len() - 1 - i]
        }),
        forall|x: LogEntryView| #[trigger]
            shown(entries, filter).contains(x) <==> entries.contains(x) && match x.level {
                LogLevel::Error => filter != LogFilter::Off,
                LogLevel::Warn => filter != LogFilter::Off && filter != LogFilter::Error,
                LogLevel::Info => filter == LogFilter::Info || filter == LogFilter::Debug || filter == LogFilter::Trace,
                LogLevel::Debug => filter == LogFilter::Debug || filter == LogFilter::Trace,
                LogLevel::Trace => filter == LogFilter::Trace,
            },
        forall|i: int|
            0 <= i < filter_buttons(filter).len() ==> (#[trigger] filter_buttons(filter)[i]).selected == (
            filter_buttons(filter)[i].filter == filter),
        label_key(LogLevel::Error) == "logs-level-error"@,
        label_key(LogLevel::Warn) == "logs-level-warn"@,
        label_key(LogLevel::Info) == "logs-level-info"@,
        label_key(LogLevel::Debug) == "logs-level-debug"@,
        label_key(LogLevel::Trace) == "logs-level-trace"@,
{
    let p = |entry: LogEntryView| crate::logs_view::depth(entry.level) <= crate::logs_view::reach(filter);
    lemma_kept(entries, p);
    assert(shown(entries, filter) == entries.filter(p));
}

} // verus!
