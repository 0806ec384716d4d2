//! What events of mail mean for the list, for the results of a search and for the reading
//! pane, told of the messages that are there before and after.
use crate::app::of_other_account;
use crate::dispatch::{Evt, MailEvt};
use crate::headers::{
    appended, is_message, law_actions_are_not_forgotten, law_appending_adds_no_copies, law_newest_first, newest_first,
    newest_then_name, with_known_action,
};
use crate::lists::{insert_ordered, lemma_insert_ordered, lemma_stable_sort, ranks, stable_sort};
use crate::mailbox_events::relisted;
use crate::message_events::in_order;
use crate::model::{AccountId, MessageHeader, MessageHeaderView, MessageRefView};
use crate::navigation::{lemma_filter_accepts, lemma_filter_holds, lemma_filter_keeps};
use crate::settings::MailSearchSort;
use crate::state::{AviaryApp, EffectView};
use crate::text::lemma_text_order;
use vstd::prelude::*;

verus! {

/// Whether a list holds a header of a message.
pub open spec fn lists(headers: Seq<MessageHeaderView>, reference: MessageRefView) -> bool {
    exists|i: int| 0 <= i < headers.len() && (#[trigger] headers[i]).reference() == reference
}

/// Whether no message stands in a list twice.
pub open spec fn each_once(headers: Seq<MessageHeaderView>) -> bool {
    forall|i: int, j: int|
        #![trigger headers[i], headers[j]]
        0 <= i < j < headers.len() ==> headers[i].reference() != headers[j].reference()
}

/// Whether a list goes from the newest message to the oldest.
pub open spec fn falls(headers: Seq<MessageHeaderView>) -> bool {
    forall|i: int, j: int|
        #![trigger headers[i], headers[j]]
        0 <= i < j < headers.len() ==> headers[i].received >= headers[j].received
}

/// Whether two headers differ in nothing but the last action.
pub open spec fn same_but_action(a: MessageHeaderView, b: MessageHeaderView) -> bool {
    a == (MessageHeaderView { last_action: a.last_action, last_action_at: a.last_action_at, ..b })
}

/// A test keeps exactly what it accepts.
pub proof fn lemma_kept<V>(s: Seq<V>, p: spec_fn(V) -> bool)
    ensures
        forall|x: V| #[trigger] s.filter(p).contains(x) <==> s.contains(x) && p(x),
{
    lemma_filter_accepts(s, p);
    lemma_filter_holds(s, p);
    assert forall|x: V| #[trigger] s.filter(p).contains(x) <==> s.contains(x) && p(x) by {
        if s.contains(x) && p(x) {
            lemma_filter_keeps(s, p, x);
        }
        if s.filter(p).contains(x) {
            let k = choose|k: int| 0 <= k < s.filter(p).len() && s.filter(p)[k] == x;
            assert(s.contains(s.filter(p)[k]));
        }
    }
}

/// Sorting moves elements and keeps them.
pub proof fn lemma_sorted<V>(s: Seq<V>, le: spec_fn(V, V) -> bool)
    ensures
        forall|x: V| #[trigger] stable_sort(s, le).contains(x) <==> s.contains(x),
        stable_sort(s, le).len() == s.len(),
{
    broadcast use vstd::seq_lib::group_to_multiset_ensures;

    let sorted = stable_sort(s, le);
    lemma_stable_sort(s, le);
    assert forall|x: V| #[trigger] sorted.contains(x) <==> s.contains(x) by {
        assert(sorted.contains(x) <==> sorted.to_multiset().count(x) > 0);
        assert(s.contains(x) <==> s.to_multiset().count(x) > 0);
    }
}

/// Sorting moves headers and keeps them.
pub proof fn lemma_sorting_keeps(headers: Seq<MessageHeaderView>, le: spec_fn(MessageHeaderView, MessageHeaderView) -> bool)
    ensures
        forall|x: MessageHeaderView| #[trigger] stable_sort(headers, le).contains(x) <==> headers.contains(x),
        forall|r: MessageRefView| #[trigger] lists(stable_sort(headers, le), r) <==> lists(headers, r),
        each_once(headers) ==> each_once(stable_sort(headers, le)),
    decreases headers.len(),
{
    let sorted = stable_sort(headers, le);
    lemma_stable_sort(headers, le);
    lemma_same_elements(headers, sorted);
    if headers.len() > 0 {
        let init = headers.drop_last();
        lemma_sorting_keeps(init, le);
        if each_once(headers) {
            assert(each_once(init)) by {
                assert forall|i: int, j: int|
                    #![trigger init[i], init[j]]
                    0 <= i < j < init.len() implies init[i].reference() != init[j].reference() by {
                    assert(headers[i] == init[i] && headers[j] == init[j]);
                }
            }
            let rest = stable_sort(init, le);
            assert forall|i: int| 0 <= i < rest.len() implies (#[trigger] rest[i]).reference()
                != headers.last().reference() by {
                assert(rest.contains(rest[i]));
                let k = choose|k: int| 0 <= k < init.len() && init[k] == rest[i];
                assert(headers[k] == init[k]);
                assert(headers[headers.len() - 1] == headers.last());
            }
            lemma_insert_once(rest, headers.last(), le);
        }
    }
}

proof fn lemma_same_elements(a: Seq<MessageHeaderView>, b: Seq<MessageHeaderView>)
    requires
        a.to_multiset() == b.to_multiset(),
    ensures
        forall|x: MessageHeaderView| #[trigger] b.contains(x) <==> a.contains(x),
        forall|r: MessageRefView| #[trigger] lists(b, r) <==> lists(a, r),
{
    broadcast use vstd::seq_lib::group_to_multiset_ensures;

    assert forall|x: MessageHeaderView| #[trigger] b.contains(x) <==> a.contains(x) by {
        assert(a.contains(x) <==> a.to_multiset().count(x) > 0);
        assert(b.contains(x) <==> b.to_multiset().count(x) > 0);
    }
    assert forall|r: MessageRefView| #[trigger] lists(b, r) <==> lists(a, r) by {
        if lists(b, r) {
            let i = choose|i: int| 0 <= i < b.len() && (#[trigger] b[i]).reference() == r;
            assert(b.contains(b[i]));
            let k = choose|k: int| 0 <= k < a.len() && a[k] == b[i];
            assert(a[k].reference() == r);
        }
        if lists(a, r) {
            let i = choose|i: int| 0 <= i < a.len() && (#[trigger] a[i]).reference() == r;
            assert(b.contains(a[i]));
            let k = choose|k: int| 0 <= k < b.len() && b[k] == a[i];
            assert(b[k].reference() == r);
        }
    }
}

proof fn lemma_insert_once(s: Seq<MessageHeaderView>, x: MessageHeaderView, le: spec_fn(MessageHeaderView, MessageHeaderView) -> bool)
    requires
        each_once(s),
        forall|i: int| 0 <= i < s.len() ==> (#[trigger] s[i]).reference() != x.reference(),
    ensures
        each_once(insert_ordered(s, x, le)),
    decreases s.len(),
{
    broadcast use vstd::seq_lib::group_to_multiset_ensures;

    if !(s.len() == 0 || le(s.last(), x)) {
        let init = s.drop_last();
        let front = insert_ordered(init, x, le);
        assert(forall|i: int| 0 <= i < init.len() ==> init[i] == #[trigger] s[i]);
        lemma_insert_once(init, x, le);
        lemma_insert_ordered(init, x, le);
        assert forall|i: int| 0 <= i < front.len() implies (#[trigger] front[i]).reference() != s.last().reference() by {
            assert(front.contains(front[i]));
            assert(front.to_multiset().count(front[i]) > 0);
            if front[i] != x {
                assert(init.to_multiset().count(front[i]) > 0);
                assert(init.contains(front[i]));
                let k = choose|k: int| 0 <= k < init.len() && init[k] == front[i];
                assert(s[k] == front[i]);
                assert(s[s.len() - 1] == s.last());
            } else {
                assert(s[s.len() - 1].reference() != x.reference());
            }
        }
    }
}

/// What appending does, told of the headers themselves.
pub proof fn lemma_appending(headers: Seq<MessageHeaderView>, added: Seq<MessageHeaderView>)
    ensures
        headers.is_prefix_of(appended(headers, added)),
        forall|x: MessageHeaderView| headers.contains(x) ==> #[trigger] appended(headers, added).contains(x),
        forall|i: int|
            headers.len() <= i < appended(headers, added).len() ==> added.contains(
                #[trigger] appended(headers, added)[i],
            ) && !lists(headers, appended(headers, added)[i].reference()),
        forall|i: int| 0 <= i < added.len() ==> lists(appended(headers, added), (#[trigger] added[i]).reference()),
        each_once(headers) ==> each_once(appended(headers, added)),
    decreases added.len(),
{
    let all = appended(headers, added);
    law_appending_adds_no_copies(headers, added);
    if added.len() > 0 {
        lemma_appending(headers, added.drop_last());
        let front = appended(headers, added.drop_last());
        assert forall|i: int| headers.len() <= i < all.len() implies added.contains(#[trigger] all[i]) by {
            if i < front.len() {
                assert(front[i] == all[i]);
                let k = choose|k: int| 0 <= k < added.drop_last().len() && added.drop_last()[k] == front[i];
                assert(added[k] == all[i]);
            } else {
                assert(added[added.len() - 1] == all[i]);
            }
        }
    }
    assert forall|i: int| headers.len() <= i < all.len() implies !lists(headers, (#[trigger] all[i]).reference()) by {
        if lists(headers, all[i].reference()) {
            let k = choose|k: int|
                0 <= k < headers.len() && (#[trigger] headers[k]).reference() == all[i].reference();
            assert(all[k] == headers[k]);
        }
    }
    assert forall|i: int| 0 <= i < added.len() implies lists(all, (#[trigger] added[i]).reference()) by {
        assert(all.any(is_message(added[i].reference())));
        let k = choose|k: int| 0 <= k < all.len() && is_message(added[i].reference())(#[trigger] all[k]);
        assert(all[k].reference() == added[i].reference());
    }
    assert forall|x: MessageHeaderView| headers.contains(x) implies #[trigger] all.contains(x) by {
        let k = choose|k: int| 0 <= k < headers.len() && headers[k] == x;
        assert(all[k] == x);
    }
    if each_once(headers) {
        assert forall|i: int, j: int|
            #![trigger all[i], all[j]]
            0 <= i < j < all.len() implies all[i].reference() != all[j].reference() by {
            if j < headers.len() {
                assert(headers[i] == all[i] && headers[j] == all[j]);
            }
        }
    }
}

/// The results of a search that there are, or none.
pub open spec fn results_of(app: AviaryApp) -> Seq<MessageHeaderView> {
    match app.mailbox.search.results {
        Some(results) => results.deep_view(),
        None => Seq::empty(),
    }
}

/// The answers of the accounts to a search are gathered: an answer of an account that is
/// shown to the question that was asked last leaves every result where it was found before,
/// adds every message of the answer that was not there, and nothing else; no message comes to
/// stand there twice. By date the newest comes first, by relevance what was there stays in
/// front. An answer to another question, or of an account that is not shown, changes nothing.
pub proof fn law_search_answers_are_gathered(
    before: AviaryApp,
    after: AviaryApp,
    account_id: AccountId,
    query: String,
    messages: Vec<MessageHeader>,
)
    requires
        before.event_done(after, Evt::Mail(MailEvt::SearchResults { account_id, query, messages })),
    ensures
        !before.relevant(account_id.0@) || query@ != before.mailbox.search.query@ ==> after == before,
        before.relevant(account_id.0@) && query@ == before.mailbox.search.query@ ==> {
            let found = messages.deep_view();
            &&& after.mailbox.search.results is Some
            &&& forall|x: MessageHeaderView| results_of(before).contains(x) ==> #[trigger] results_of(after).contains(x)
            &&& forall|i: int| 0 <= i < found.len() ==> lists(results_of(after), (#[trigger] found[i]).reference())
            &&& forall|x: MessageHeaderView| #[trigger]
                results_of(after).contains(x) ==> results_of(before).contains(x) || (found.contains(x) && !lists(
                    results_of(before),
                    x.reference(),
                ))
            &&& each_once(results_of(before)) ==> each_once(results_of(after))
            &&& before.mailbox.search.sort == MailSearchSort::Date ==> falls(results_of(after))
            &&& before.mailbox.search.sort == MailSearchSort::Relevance ==> results_of(before).is_prefix_of(
                results_of(after),
            )
            &&& after.mailbox.search.query == before.mailbox.search.query
            &&& after.mailbox.messages == before.mailbox.messages
            &&& after.effects == before.effects
        },
{
    if before.relevant(account_id.0@) && query@ == before.mailbox.search.query@ {
        let old_results = results_of(before);
        let found = messages.deep_view();
        let all = appended(old_results, found);
        assert(results_of(after) == in_order(all, before.mailbox.search.sort));
        lemma_appending(old_results, found);
        lemma_sorting_keeps(all, newest_first());
        lemma_stable_sort(all, newest_first());
        law_newest_first(all);
        assert forall|x: MessageHeaderView| all.contains(x) implies old_results.contains(x) || (found.contains(x)
            && !lists(old_results, x.reference())) by {
            let i = choose|i: int| 0 <= i < all.len() && all[i] == x;
            if i < old_results.len() {
                assert(old_results[i] == x);
            }
        }
    }
}

/// Whether a page of an account took the place of what a list held of it: the headers of
/// other accounts stay, every message of the page is there with what is known of its last
/// action, nothing else is there, and the newest comes first.
pub open spec fn page_taken(
    old_list: Seq<MessageHeaderView>,
    new_list: Seq<MessageHeaderView>,
    id: Seq<char>,
    page: Seq<MessageHeaderView>,
) -> bool {
    &&& forall|x: MessageHeaderView|
        x.account_id != id && old_list.contains(x) ==> #[trigger] new_list.contains(x)
    &&& forall|i: int| 0 <= i < page.len() ==> page_shown(old_list, new_list, #[trigger] page[i])
    &&& forall|x: MessageHeaderView| #[trigger]
        new_list.contains(x) ==> (old_list.contains(x) && x.account_id != id) || of_page(x, page)
    &&& falls(new_list)
}

/// Whether a header of a page stands in a list, with its own last action or with the one
/// that was known.
pub open spec fn page_shown(
    old_list: Seq<MessageHeaderView>,
    new_list: Seq<MessageHeaderView>,
    header: MessageHeaderView,
) -> bool {
    exists|x: MessageHeaderView| #[trigger]
        new_list.contains(x) && same_but_action(x, header) && action_kept(old_list, x, header)
}

/// Whether a header tells of the action that its source tells of, or else of one that was
/// known.
pub open spec fn action_kept(known: Seq<MessageHeaderView>, x: MessageHeaderView, header: MessageHeaderView) -> bool {
    &&& header.last_action is Some ==> x == header
    &&& (exists|k: int|
        0 <= k < known.len() && (#[trigger] known[k]).id == header.id && known[k].last_action is Some)
        ==> x.last_action is Some
}

/// Whether a header is one of a page but for its last action.
pub open spec fn of_page(x: MessageHeaderView, page: Seq<MessageHeaderView>) -> bool {
    exists|i: int| 0 <= i < page.len() && same_but_action(x, #[trigger] page[i])
}

proof fn lemma_relisted(old_list: Seq<MessageHeaderView>, id: Seq<char>, page: Seq<MessageHeaderView>)
    ensures
        page_taken(old_list, relisted(old_list, id, page), id, page),
{
    let others = old_list.filter(of_other_account(id));
    let own = page.map_values(with_known_action(old_list));
    let all = others + own;
    let new_list = relisted(old_list, id, page);
    lemma_sorting_keeps(all, newest_first());
    lemma_stable_sort(all, newest_first());
    law_newest_first(all);
    lemma_filter_holds(old_list, of_other_account(id));
    lemma_filter_accepts(old_list, of_other_account(id));
    assert forall|x: MessageHeaderView| x.account_id != id && old_list.contains(x) implies #[trigger] new_list.contains(x) by {
        lemma_filter_keeps(old_list, of_other_account(id), x);
        let k = choose|k: int| 0 <= k < others.len() && others[k] == x;
        assert(all[k] == x);
        assert(all.contains(x));
    }
    assert forall|i: int| 0 <= i < page.len() implies page_shown(old_list, new_list, #[trigger] page[i]) by {
        law_actions_are_not_forgotten(old_list, page[i]);
        let x = with_known_action(old_list)(page[i]);
        assert(all[others.len() + i] == x);
        assert(all.contains(x));
        assert(new_list.contains(x));
    }
    assert forall|x: MessageHeaderView| #[trigger] new_list.contains(x) implies (old_list.contains(x) && x.account_id
        != id) || of_page(x, page) by {
        assert(all.contains(x));
        let k = choose|k: int| 0 <= k < all.len() && all[k] == x;
        if k < others.len() {
            assert(others[k] == x);
        } else {
            law_actions_are_not_forgotten(old_list, page[k - others.len()]);
            assert(same_but_action(x, page[k - others.len()]));
        }
    }
}

/// A page of an account takes the place of what the list held of it, and there may be more
/// where it is as long as was asked for and the account is the only one shown. Nothing
/// happens for an account that is not shown, nor while the list pages through several.
pub proof fn law_pages_replace_what_an_account_had(
    before: AviaryApp,
    after: AviaryApp,
    account_id: AccountId,
    messages: Vec<MessageHeader>,
)
    requires
        before.event_done(after, Evt::Mail(MailEvt::Messages { account_id, messages })),
    ensures
        before.unified_pagination() || !before.relevant(account_id.0@) ==> after == before,
        !before.unified_pagination() && before.relevant(account_id.0@) ==> {
            &&& page_taken(
                before.mailbox.messages.deep_view(),
                after.mailbox.messages.deep_view(),
                account_id.0@,
                messages.deep_view(),
            )
            &&& after.mailbox.messages_loaded
            &&& !after.mailbox.refresh_pending
            &&& !after.mailbox.pagination.loading_more
            &&& after.mailbox.pagination.has_more ==> messages.len() >= before.limit_of(account_id.0@)
            &&& after.mailbox.pagination.has_more <==> before.active_accounts() == seq![account_id.0@] && messages.len()
                >= before.limit_of(account_id.0@)
            &&& after.effects.deep_view().last() == EffectView::UpdateTrayUnread
            &&& after.effects.len() == before.effects.len() + (if before.mailbox.refresh_pending {
                2int
            } else {
                1int
            })
            &&& after.mailbox.viewer == before.mailbox.viewer
            &&& after.mailbox.search == before.mailbox.search
        },
{
    lemma_relisted(before.mailbox.messages.deep_view(), account_id.0@, messages.deep_view());
    assert(after.effects.deep_view().len() == after.effects.len());
    assert(before.effects.deep_view().len() == before.effects.len());
}

/// A page from the local copy does so too, for the folder that is shown, and does not end a
/// refresh.
pub proof fn law_local_pages_are_shown_meanwhile(
    before: AviaryApp,
    after: AviaryApp,
    account_id: AccountId,
    folder_id: Option<String>,
    messages: Vec<MessageHeader>,
)
    requires
        before.event_done(after, Evt::Mail(MailEvt::CachedMessages { account_id, folder_id, messages })),
    ensures
        ({
            let shown = !before.unified_pagination() && before.relevant(account_id.0@)
                && before.mailbox.selected_folder_id.deep_view() == folder_id.deep_view();
            &&& !shown ==> after == before
            &&& shown ==> {
                &&& page_taken(
                    before.mailbox.messages.deep_view(),
                    after.mailbox.messages.deep_view(),
                    account_id.0@,
                    messages.deep_view(),
                )
                &&& after.mailbox.messages_loaded
                &&& after.mailbox.refresh_pending == before.mailbox.refresh_pending
                &&& after.mailbox.pagination.loading_more == before.mailbox.pagination.loading_more
                &&& after.mailbox.viewer == before.mailbox.viewer
            }
        }),
{
    lemma_relisted(before.mailbox.messages.deep_view(), account_id.0@, messages.deep_view());
}

/// A further page of the only account shown comes behind what is there, each message once,
/// and says itself whether there is more.
pub proof fn law_further_pages_come_behind(
    before: AviaryApp,
    after: AviaryApp,
    account_id: AccountId,
    messages: Vec<MessageHeader>,
    has_more: bool,
)
    requires
        before.event_done(after, Evt::Mail(MailEvt::MoreMessages { account_id, messages, has_more })),
    ensures
        before.active_accounts() != seq![account_id.0@] ==> after == before,
        before.active_accounts() == seq![account_id.0@] ==> {
            let old_list = before.mailbox.messages.deep_view();
            let new_list = after.mailbox.messages.deep_view();
            let page = messages.deep_view();
            &&& old_list.is_prefix_of(new_list)
            &&& forall|i: int| 0 <= i < page.len() ==> lists(new_list, (#[trigger] page[i]).reference())
            &&& forall|i: int| old_list.len() <= i < new_list.len() ==> page.contains(#[trigger] new_list[i])
            &&& each_once(old_list) ==> each_once(new_list)
            &&& after.mailbox.pagination.has_more == has_more
            &&& !after.mailbox.pagination.loading_more
            &&& after.effects == before.effects
        },
{
    lemma_appending(before.mailbox.messages.deep_view(), messages.deep_view());
    if before.active_accounts() == seq![account_id.0@] {
        assert(before.active_accounts()[0] == account_id.0@);
        assert(before.relevant(account_id.0@));
    }
}

/// A page of several accounts is the list, in the order it came, with what was known of last
/// actions; only the answer to the request that was made last counts.
pub proof fn law_unified_pages_are_the_list(
    before: AviaryApp,
    after: AviaryApp,
    request_id: u64,
    messages: Vec<MessageHeader>,
    has_more: bool,
    cached: bool,
)
    requires
        cached ==> before.event_done(
            after,
            Evt::Mail(MailEvt::UnifiedCachedMessages { request_id, messages }),
        ),
        !cached ==> before.event_done(
            after,
            Evt::Mail(MailEvt::UnifiedMessages { request_id, messages, has_more }),
        ),
    ensures
        !before.unified_pagination() || request_id != before.mailbox.pagination.unified_request_id ==> after == before,
        before.unified_pagination() && request_id == before.mailbox.pagination.unified_request_id ==> {
            let new_list = after.mailbox.messages.deep_view();
            let page = messages.deep_view();
            &&& new_list.len() == page.len()
            &&& forall|i: int|
                0 <= i < page.len() ==> same_but_action(#[trigger] new_list[i], page[i]) && action_kept(
                    before.mailbox.messages.deep_view(),
                    new_list[i],
                    page[i],
                )
            &&& after.mailbox.messages_loaded
            &&& after.mailbox.pagination.has_more == (!cached && has_more)
            &&& after.mailbox.refresh_pending == (cached && before.mailbox.refresh_pending)
        },
{
    if before.unified_pagination() && request_id == before.mailbox.pagination.unified_request_id {
        let new_list = after.mailbox.messages.deep_view();
        let page = messages.deep_view();
        assert forall|i: int| 0 <= i < page.len() implies same_but_action(#[trigger] new_list[i], page[i]) && action_kept(
            before.mailbox.messages.deep_view(),
            new_list[i],
            page[i],
        ) by {
            law_actions_are_not_forgotten(before.mailbox.messages.deep_view(), page[i]);
        }
    }
}

proof fn lemma_newest_then_name_ranks()
    ensures
        ranks(newest_then_name()),
{
    let le = newest_then_name();
    assert forall|a: MessageHeaderView, b: MessageHeaderView| #![trigger le(a, b)] le(a, b) || le(b, a) by {
        lemma_text_order(a.id, b.id, a.id);
        lemma_text_order(a.account_id, b.account_id, a.account_id);
    }
    assert forall|a: MessageHeaderView, b: MessageHeaderView, c: MessageHeaderView|
        #![trigger le(a, b), le(b, c)]
        le(a, b) && le(b, c) implies le(a, c) by {
        lemma_text_order(a.id, b.id, c.id);
        lemma_text_order(a.account_id, b.account_id, c.account_id);
    }
}

/// A further page of several accounts joins the list: all that was there stays, all that came
/// is there once, and the newest comes first.
pub proof fn law_further_unified_pages_join(
    before: AviaryApp,
    after: AviaryApp,
    request_id: u64,
    messages: Vec<MessageHeader>,
    has_more: bool,
)
    requires
        before.event_done(after, Evt::Mail(MailEvt::UnifiedMoreMessages { request_id, messages, has_more })),
    ensures
        !before.unified_pagination() || request_id != before.mailbox.pagination.unified_request_id ==> after == before,
        before.unified_pagination() && request_id == before.mailbox.pagination.unified_request_id ==> {
            let old_list = before.mailbox.messages.deep_view();
            let new_list = after.mailbox.messages.deep_view();
            let page = messages.deep_view();
            &&& forall|x: MessageHeaderView| old_list.contains(x) ==> #[trigger] new_list.contains(x)
            &&& forall|i: int| 0 <= i < page.len() ==> lists(new_list, (#[trigger] page[i]).reference())
            &&& forall|x: MessageHeaderView| #[trigger] new_list.contains(x) ==> old_list.contains(x) || page.contains(x)
            &&& each_once(old_list) ==> each_once(new_list)
            &&& falls(new_list)
            &&& after.mailbox.pagination.has_more == has_more
            &&& !after.mailbox.pagination.loading_more
        },
{
    let old_list = before.mailbox.messages.deep_view();
    let page = messages.deep_view();
    let all = appended(old_list, page);
    lemma_appending(old_list, page);
    lemma_sorting_keeps(all, newest_then_name());
    lemma_stable_sort(all, newest_then_name());
    lemma_newest_then_name_ranks();
    assert forall|x: MessageHeaderView| all.contains(x) implies old_list.contains(x) || page.contains(x) by {
        let i = choose|i: int| 0 <= i < all.len() && all[i] == x;
        if i < old_list.len() {
            assert(old_list[i] == x);
        }
    }
}

} // verus!
